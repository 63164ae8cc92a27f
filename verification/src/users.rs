//! Commands that manage users: who may give them, what they do, and what is
//! answered.

use vstd::prelude::*;
use vstd::utf8::encode_utf8;

use crate::commands::StatsTarget;
use crate::double::{as_double, double_quotient, nearest_double, nearest_double_to, nearest_quotient};
use crate::ids::{contains_id, insert_all, insert_id, is_ordered};
use crate::jobs::status::{rounded_text, write_rounded};
use crate::number::{decimal, signed_decimal, write_i64, write_u64, write_usize};
use crate::policy::{
    EffectiveUserLimits, HardCaps, MEBIBYTE, PackageLimitDefaults, PackageName, UserLimitName,
    UserLimitValue, UserPolicies, effective_limits, hard_limit, limit_column, no_overrides,
    superuser_limits_of,
};
use crate::store::{
    AddUserOutcome, DownloadStats, GlobalStats, RemoveUserOutcome, UserRecord, UserView, unresolved,
    user_seen,
};
use crate::text::{join, joined, push_text, same_text, text_of, texts, trim, trimmed};

verus! {

/// How long the lookup of one user may take, in seconds.
pub const USER_LOOKUP_TIMEOUT: u64 = 5;

/// How many bytes one message may hold.
pub const TELEGRAM_TEXT_LIMIT: usize = 4_000;

pub const SET_LIMIT_USAGE: &'static str =
    "Usage: /limit <user-id> <active|queued|daily|upload_mb> <value|default>";

pub const UNAUTHORIZED_TEXT: &'static str = "You are not authorized to use this command.";

pub const SUPERUSER_POLICY_TEXT: &'static str =
    "Superusers use the unrestricted superuser policy.";

pub const STATISTICS_FAILURE_TEXT: &'static str = "Failed to read download statistics.";

/// A limit to be changed, as far as the command says which.
#[derive(Clone, Copy, Debug, PartialEq, Eq)]
pub struct LimitChange {
    pub user_id: Option<i64>,
    pub name: Option<UserLimitName>,
    pub value: Option<UserLimitValue>,
}

/// What a check comes to: what to go on with, or what to answer at once.
pub open spec fn checked<T>(result: Result<T, String>) -> Result<T, Seq<char>> {
    match result {
        Ok(value) => Ok(value),
        Err(reply) => Err(reply@),
    }
}

// ---------------------------------------------------------------------------
// Adding and removing
// ---------------------------------------------------------------------------

/// What `/add` asks for.
pub open spec fn add_request(sender_id: i64, user_id: Option<i64>, super_users: Seq<i64>) -> Result<
    i64,
    Seq<char>,
> {
    if !super_users.contains(sender_id) {
        Err(UNAUTHORIZED_TEXT@)
    } else {
        match user_id {
            Some(user_id) => Ok(user_id),
            None => Err("Usage: /add <user-id>"@),
        }
    }
}

/// Checks `/add`: whom to add, or what to answer instead.
pub fn handle_add(sender_id: i64, user_id: Option<i64>, super_users: &[i64]) -> (result: Result<
    i64,
    String,
>)
    ensures
        checked(result) == add_request(sender_id, user_id, super_users@),
{
    if !contains_id(super_users, sender_id) {
        return Err(UNAUTHORIZED_TEXT.to_owned());
    }
    match user_id {
        Some(user_id) => Ok(user_id),
        None => Err("Usage: /add <user-id>".to_owned()),
    }
}

/// What is answered once a user has been added, or could not be.
pub open spec fn added_text(
    user_id: i64,
    outcome: Result<AddUserOutcome, Seq<char>>,
    package: Seq<char>,
) -> Seq<char> {
    let id = signed_decimal(user_id as int);
    match outcome {
        Ok(AddUserOutcome::Added) => "User "@ + id + " added with package `"@ + package + "`."@,
        Ok(AddUserOutcome::Reenabled) => "User "@ + id + " re-enabled."@,
        Ok(AddUserOutcome::AlreadyEnabled) => "User "@ + id + " is already enabled."@,
        Err(error) => "Failed to add user "@ + id + ": "@ + error,
    }
}

pub fn add_reply(
    user_id: i64,
    outcome: &Result<AddUserOutcome, String>,
    default_package: &PackageName,
) -> (result: String)
    ensures
        result@ == added_text(user_id, checked(*outcome), default_package@),
{
    let id = write_i64(user_id);
    match outcome {
        Ok(AddUserOutcome::Added) => "User ".to_owned().concat(id.as_str()).concat(
            " added with package `",
        ).concat(default_package.as_str()).concat("`."),
        Ok(AddUserOutcome::Reenabled) => "User ".to_owned().concat(id.as_str()).concat(
            " re-enabled.",
        ),
        Ok(AddUserOutcome::AlreadyEnabled) => "User ".to_owned().concat(id.as_str()).concat(
            " is already enabled.",
        ),
        Err(error) => "Failed to add user ".to_owned().concat(id.as_str()).concat(": ").concat(
            error.as_str(),
        ),
    }
}

/// What is answered when someone would remove a superuser.
pub open spec fn superuser_removal_text(user_id: i64) -> Seq<char> {
    "User "@ + signed_decimal(user_id as int)
        + " is a superuser. Remove them from the config and restart before disabling their regular account."@
}

/// What `/remove` asks for.
pub open spec fn remove_request(
    sender_id: i64,
    user_id: Option<i64>,
    super_users: Seq<i64>,
) -> Result<i64, Seq<char>> {
    if !super_users.contains(sender_id) {
        Err(UNAUTHORIZED_TEXT@)
    } else {
        match user_id {
            None => Err("Usage: /remove <user-id>"@),
            Some(user_id) => if super_users.contains(user_id) {
                Err(superuser_removal_text(user_id))
            } else {
                Ok(user_id)
            },
        }
    }
}

/// Checks `/remove`: whom to disable, or what to answer instead.
pub fn handle_remove(sender_id: i64, user_id: Option<i64>, super_users: &[i64]) -> (result: Result<
    i64,
    String,
>)
    ensures
        checked(result) == remove_request(sender_id, user_id, super_users@),
{
    if !contains_id(super_users, sender_id) {
        return Err(UNAUTHORIZED_TEXT.to_owned());
    }
    match user_id {
        None => Err("Usage: /remove <user-id>".to_owned()),
        Some(user_id) => if contains_id(super_users, user_id) {
            Err(
                "User ".to_owned().concat(write_i64(user_id).as_str()).concat(
                    " is a superuser. Remove them from the config and restart before disabling their regular account.",
                ),
            )
        } else {
            Ok(user_id)
        },
    }
}

/// What is answered once a user has been disabled, or could not be.
pub open spec fn removed_text(user_id: i64, outcome: Result<RemoveUserOutcome, Seq<char>>) -> Seq<
    char,
> {
    let id = signed_decimal(user_id as int);
    match outcome {
        Ok(RemoveUserOutcome::Disabled) => "User "@ + id + " disabled."@,
        Ok(RemoveUserOutcome::AlreadyDisabled) => "User "@ + id + " is already disabled."@,
        Ok(RemoveUserOutcome::NotFound) => "User "@ + id + " does not exist."@,
        Err(error) => "Failed to disable user "@ + id + ": "@ + error,
    }
}

pub fn remove_reply(user_id: i64, outcome: &Result<RemoveUserOutcome, String>) -> (result: String)
    ensures
        result@ == removed_text(user_id, checked(*outcome)),
{
    let id = write_i64(user_id);
    match outcome {
        Ok(RemoveUserOutcome::Disabled) => "User ".to_owned().concat(id.as_str()).concat(
            " disabled.",
        ),
        Ok(RemoveUserOutcome::AlreadyDisabled) => "User ".to_owned().concat(id.as_str()).concat(
            " is already disabled.",
        ),
        Ok(RemoveUserOutcome::NotFound) => "User ".to_owned().concat(id.as_str()).concat(
            " does not exist.",
        ),
        Err(error) => "Failed to disable user ".to_owned().concat(id.as_str()).concat(": ").concat(
            error.as_str(),
        ),
    }
}

// ---------------------------------------------------------------------------
// Packages
// ---------------------------------------------------------------------------

/// The names of configured packages.
pub open spec fn package_names(entries: Seq<(PackageName, PackageLimitDefaults)>) -> Seq<Seq<char>> {
    entries.map_values(|entry: (PackageName, PackageLimitDefaults)| entry.0@)
}

/// What is answered when a package is not configured.
pub open spec fn unknown_package_text(
    package: Seq<char>,
    entries: Seq<(PackageName, PackageLimitDefaults)>,
) -> Seq<char> {
    "Package `"@ + package + "` is not configured. Available: "@ + joined(
        package_names(entries),
        ", "@,
    )
}

/// What `/package` asks for.
pub open spec fn package_request(
    sender_id: i64,
    user_id: Option<i64>,
    package: Option<Seq<char>>,
    super_users: Seq<i64>,
    policies: UserPolicies,
) -> Result<(i64, Seq<char>), Seq<char>> {
    if !super_users.contains(sender_id) {
        Err(UNAUTHORIZED_TEXT@)
    } else if user_id is None || package is None {
        Err("Usage: /package <user-id> <package>"@)
    } else if super_users.contains(user_id->0) {
        Err(SUPERUSER_POLICY_TEXT@)
    } else if !policies.table().contains_key(package->0) {
        Err(unknown_package_text(package->0, policies.entries()))
    } else {
        Ok((user_id->0, package->0))
    }
}

/// The name that an optional package has.
pub open spec fn package_seen(package: Option<PackageName>) -> Option<Seq<char>> {
    match package {
        Some(package) => Some(package@),
        None => None,
    }
}

/// Checks `/package`: who gets which package, or what to answer instead.
pub fn handle_set_package(
    sender_id: i64,
    user_id: Option<i64>,
    package: Option<PackageName>,
    super_users: &[i64],
    policies: &UserPolicies,
) -> (result: Result<(i64, PackageName), String>)
    ensures
        match (
            result,
            package_request(sender_id, user_id, package_seen(package), super_users@, *policies),
        ) {
            (Ok((user, name)), Ok(expected)) => user == expected.0 && name@ == expected.1,
            (Err(reply), Err(expected)) => reply@ == expected,
            _ => false,
        },
{
    if !contains_id(super_users, sender_id) {
        return Err(UNAUTHORIZED_TEXT.to_owned());
    }
    let user_id: i64 = match user_id {
        Some(user_id) => user_id,
        None => {
            return Err("Usage: /package <user-id> <package>".to_owned());
        },
    };
    let package = match package {
        Some(package) => package,
        None => {
            return Err("Usage: /package <user-id> <package>".to_owned());
        },
    };
    if contains_id(super_users, user_id) {
        return Err(SUPERUSER_POLICY_TEXT.to_owned());
    }
    if !policies.has_package(&package) {
        let available = list_package_names(policies.packages());
        return Err(
            "Package `".to_owned().concat(package.as_str()).concat(
                "` is not configured. Available: ",
            ).concat(join(&available, ", ").as_str()),
        );
    }
    Ok((user_id, package))
}

fn list_package_names(entries: &Vec<(PackageName, PackageLimitDefaults)>) -> (result: Vec<String>)
    ensures
        texts(result@) == package_names(entries@),
{
    let mut names: Vec<String> = Vec::new();
    let mut i: usize = 0;
    assert(texts(names@) =~= package_names(entries@).take(0));
    while i < entries.len()
        invariant
            i <= entries@.len(),
            texts(names@) == package_names(entries@).take(i as int),
        decreases entries@.len() - i,
    {
        push_text(&mut names, entries[i].0.as_str());
        assert(texts(names@) =~= package_names(entries@).take(i + 1));
        i = i + 1;
    }
    assert(package_names(entries@).take(i as int) =~= package_names(entries@));
    names
}

/// What is answered once a package has been assigned, or could not be.
pub open spec fn package_set_text(
    user_id: i64,
    package: Seq<char>,
    outcome: Result<bool, Seq<char>>,
) -> Seq<char> {
    let id = signed_decimal(user_id as int);
    match outcome {
        Ok(true) => "User "@ + id + " now uses package `"@ + package + "`."@,
        Ok(false) => "User "@ + id + " does not exist. Add them first."@,
        Err(error) => "Failed to change user "@ + id + ": "@ + error,
    }
}

pub fn set_package_reply(user_id: i64, package: &PackageName, outcome: &Result<bool, String>) -> (result:
    String)
    ensures
        result@ == package_set_text(user_id, package@, checked(*outcome)),
{
    let id = write_i64(user_id);
    match outcome {
        Ok(true) => "User ".to_owned().concat(id.as_str()).concat(" now uses package `").concat(
            package.as_str(),
        ).concat("`."),
        Ok(false) => "User ".to_owned().concat(id.as_str()).concat(
            " does not exist. Add them first.",
        ),
        Err(error) => "Failed to change user ".to_owned().concat(id.as_str()).concat(": ").concat(
            error.as_str(),
        ),
    }
}

/// A daily limit in words.
pub open spec fn daily_text(limit: Option<u64>) -> Seq<char> {
    match limit {
        Some(limit) => decimal(limit as nat),
        None => "unlimited"@,
    }
}

fn write_daily(limit: Option<u64>) -> (result: String)
    ensures
        result@ == daily_text(limit),
{
    match limit {
        Some(limit) => write_u64(limit),
        None => "unlimited".to_owned(),
    }
}

/// One package in a list of them.
pub open spec fn package_line(package: Seq<char>, limits: EffectiveUserLimits, is_default: bool) -> Seq<
    char,
> {
    "- `"@ + package + "`"@ + (if is_default {
        " [default]"@
    } else {
        ""@
    }) + ": active "@ + decimal(limits.max_active_jobs as nat) + ", queued "@ + decimal(
        limits.max_queued_jobs as nat,
    ) + ", daily "@ + daily_text(limits.daily_job_limit) + ", upload "@ + decimal(
        (limits.max_upload_bytes / MEBIBYTE) as nat,
    ) + " MiB"@
}

pub fn format_package_line(package: &PackageName, limits: EffectiveUserLimits, is_default: bool) -> (result:
    String)
    ensures
        result@ == package_line(package@, limits, is_default),
{
    let mark = if is_default {
        " [default]"
    } else {
        ""
    };
    "- `".to_owned().concat(package.as_str()).concat("`").concat(mark).concat(": active ").concat(
        write_usize(limits.max_active_jobs).as_str(),
    ).concat(", queued ").concat(write_usize(limits.max_queued_jobs).as_str()).concat(
        ", daily ",
    ).concat(write_daily(limits.daily_job_limit).as_str()).concat(", upload ").concat(
        write_u64(limits.max_upload_bytes / MEBIBYTE).as_str(),
    ).concat(" MiB")
}

/// The list of packages, one line for each.
pub open spec fn package_lines(
    entries: Seq<(PackageName, PackageLimitDefaults)>,
    default_name: Seq<char>,
    caps: HardCaps,
) -> Seq<Seq<char>> {
    seq!["Configured packages (default: `"@ + default_name + "`):"@] + Seq::new(
        entries.len(),
        |i: int|
            package_line(
                entries[i].0@,
                effective_limits(entries[i].1, no_overrides(), caps),
                entries[i].0@ == default_name,
            ),
    )
}

/// What `/packages` answers, page by page.
pub fn handle_list_packages(policies: &UserPolicies) -> (result: Vec<String>)
    ensures
        texts(result@) == paginated(
            package_lines(policies.entries(), policies.default_name(), policies.caps()),
            TELEGRAM_TEXT_LIMIT as nat,
        ),
{
    let ghost expected = package_lines(
        policies.entries(),
        policies.default_name(),
        policies.caps(),
    );
    let entries = policies.packages();
    let mut lines: Vec<String> = Vec::new();
    push_text(
        &mut lines,
        "Configured packages (default: `".to_owned().concat(
            policies.default_package().as_str(),
        ).concat("`):").as_str(),
    );
    assert(texts(lines@) =~= expected.take(1));
    let mut i: usize = 0;
    while i < entries.len()
        invariant
            i <= entries@.len(),
            entries@ == policies.entries(),
            forall|k: int|
                0 <= k < entries@.len() ==> policies.table().contains_key(#[trigger] entries@[k].0@)
                    && policies.table()[entries@[k].0@] == entries@[k].1,
            expected == package_lines(
                policies.entries(),
                policies.default_name(),
                policies.caps(),
            ),
            texts(lines@) == expected.take(i + 1),
        decreases entries@.len() - i,
    {
        let package = &entries[i].0;
        assert(policies.table().contains_key(entries@[i as int].0@));
        if let Ok(limits) = policies.package_defaults(package) {
            let is_default = same_text(package.as_str(), policies.default_package().as_str());
            push_text(&mut lines, format_package_line(package, limits, is_default).as_str());
        }
        assert(texts(lines@) =~= expected.take(i + 2));
        i = i + 1;
    }
    assert(expected.take(i + 1) =~= expected);
    paginate(&lines, TELEGRAM_TEXT_LIMIT)
}

// ---------------------------------------------------------------------------
// Limits
// ---------------------------------------------------------------------------

/// Who someone is to the application.
pub open spec fn identity_text(user_id: i64, user: Option<UserView>) -> Seq<char> {
    match user {
        None => "User "@ + signed_decimal(user_id as int) + " — superuser"@,
        Some(user) => "User "@ + signed_decimal(user_id as int) + " — package `"@ + user.package
            + "` — "@ + (if user.enabled {
            "enabled"@
        } else {
            "disabled"@
        }),
    }
}

fn write_identity(user_id: i64, user: Option<&UserRecord>) -> (result: String)
    ensures
        result@ == identity_text(user_id, user_seen(user)),
{
    match user {
        None => "User ".to_owned().concat(write_i64(user_id).as_str()).concat(" — superuser"),
        Some(user) => {
            let state = if user.enabled {
                "enabled"
            } else {
                "disabled"
            };
            "User ".to_owned().concat(write_i64(user_id).as_str()).concat(" — package `").concat(
                user.package.as_str(),
            ).concat("` — ").concat(state)
        },
    }
}

/// The limits of someone, in words.
pub open spec fn limits_text(identity: Seq<char>, limits: EffectiveUserLimits) -> Seq<char> {
    identity + "\nEffective limits:\n- active jobs: "@ + decimal(limits.max_active_jobs as nat)
        + "\n- queued jobs: "@ + decimal(limits.max_queued_jobs as nat) + "\n- daily jobs: "@
        + daily_text(limits.daily_job_limit) + "\n- upload size: "@ + decimal(
        (limits.max_upload_bytes / MEBIBYTE) as nat,
    ) + " MiB"@
}

/// The limits of a superuser, or of a stored user.
pub fn format_limits(
    user_id: i64,
    is_superuser: bool,
    user: Option<&UserRecord>,
    effective: EffectiveUserLimits,
) -> (result: String)
    requires
        is_superuser || user is Some,
    ensures
        result@ == limits_text(
            identity_text(
                user_id,
                if is_superuser {
                    None
                } else {
                    user_seen(user)
                },
            ),
            effective,
        ),
{
    let identity = if is_superuser {
        write_identity(user_id, None)
    } else {
        write_identity(user_id, user)
    };
    identity.concat("\nEffective limits:\n- active jobs: ").concat(
        write_usize(effective.max_active_jobs).as_str(),
    ).concat("\n- queued jobs: ").concat(write_usize(effective.max_queued_jobs).as_str()).concat(
        "\n- daily jobs: ",
    ).concat(write_daily(effective.daily_job_limit).as_str()).concat("\n- upload size: ").concat(
        write_u64(effective.max_upload_bytes / MEBIBYTE).as_str(),
    ).concat(" MiB")
}

/// What `/limits` asks for: a stored user to read, or an answer at once.
pub open spec fn limits_request(
    sender_id: i64,
    target_id: Option<i64>,
    super_users: Seq<i64>,
    caps: HardCaps,
) -> Result<i64, Seq<char>> {
    let target = match target_id {
        Some(target) => target,
        None => sender_id,
    };
    if target != sender_id && !super_users.contains(sender_id) {
        Err(UNAUTHORIZED_TEXT@)
    } else if super_users.contains(target) {
        Err(limits_text(identity_text(target, None), superuser_limits_of(caps)))
    } else {
        Ok(target)
    }
}

/// Checks `/limits`: whom to read, or what to answer at once.
pub fn handle_show_limits(
    sender_id: i64,
    target_id: Option<i64>,
    super_users: &[i64],
    policies: &UserPolicies,
) -> (result: Result<i64, String>)
    ensures
        checked(result) == limits_request(sender_id, target_id, super_users@, policies.caps()),
{
    let target_id: i64 = match target_id {
        Some(target_id) => target_id,
        None => sender_id,
    };
    if target_id != sender_id && !contains_id(super_users, sender_id) {
        return Err(UNAUTHORIZED_TEXT.to_owned());
    }
    if contains_id(super_users, target_id) {
        return Err(format_limits(target_id, true, None, policies.superuser_limits()));
    }
    Ok(target_id)
}

/// What is read of a user who may not be there.
pub open spec fn user_read(found: Result<Option<UserRecord>, String>) -> Result<
    Option<UserView>,
    Seq<char>,
> {
    match found {
        Ok(Some(user)) => Ok(Some(user@)),
        Ok(None) => Ok(None),
        Err(error) => Err(error@),
    }
}

/// What is answered once a user has been looked up for their limits.
pub open spec fn user_limits_text(
    target_id: i64,
    found: Result<Option<UserView>, Seq<char>>,
    policies: UserPolicies,
) -> Seq<char> {
    let id = signed_decimal(target_id as int);
    match found {
        Ok(Some(user)) => if policies.table().contains_key(user.package) {
            limits_text(
                identity_text(target_id, Some(user)),
                effective_limits(policies.table()[user.package], user.limits, policies.caps()),
            )
        } else {
            "Could not resolve limits for user "@ + id + ": "@ + ("package `"@ + user.package
                + "` is not configured"@)
        },
        Ok(None) => "User "@ + id + " does not exist."@,
        Err(error) => "Failed to read limits: "@ + error,
    }
}

pub fn limits_reply(
    target_id: i64,
    found: &Result<Option<UserRecord>, String>,
    policies: &UserPolicies,
) -> (result: String)
    ensures
        result@ == user_limits_text(target_id, user_read(*found), *policies),
{
    match found {
        Ok(Some(user)) => match policies.resolve(&user.package, user.limits) {
            Ok(effective) => format_limits(target_id, false, Some(user), effective),
            Err(error) => "Could not resolve limits for user ".to_owned().concat(
                write_i64(target_id).as_str(),
            ).concat(": ").concat(error.message().as_str()),
        },
        Ok(None) => "User ".to_owned().concat(write_i64(target_id).as_str()).concat(
            " does not exist.",
        ),
        Err(error) => "Failed to read limits: ".to_owned().concat(error.as_str()),
    }
}

/// What `/limit` asks for.
pub open spec fn limit_request(
    sender_id: i64,
    change: LimitChange,
    super_users: Seq<i64>,
    caps: HardCaps,
) -> Result<(i64, UserLimitName, UserLimitValue), Seq<char>> {
    if !super_users.contains(sender_id) {
        Err(UNAUTHORIZED_TEXT@)
    } else if change.user_id is None || change.name is None || change.value is None {
        Err(SET_LIMIT_USAGE@)
    } else if super_users.contains(change.user_id->0) {
        Err(SUPERUSER_POLICY_TEXT@)
    } else {
        match (change.value->0, hard_limit(change.name->0, caps)) {
            (UserLimitValue::Value(number), Some(maximum)) if number > maximum => Err(
                limit_column(change.name->0) + " cannot exceed the global maximum of "@ + decimal(
                    maximum as nat,
                ),
            ),
            _ => Ok((change.user_id->0, change.name->0, change.value->0)),
        }
    }
}

/// Checks `/limit`: which limit of whom is set to what, or what to answer
/// instead.
pub fn handle_set_limit(
    sender_id: i64,
    change: LimitChange,
    super_users: &[i64],
    policies: &UserPolicies,
) -> (result: Result<(i64, UserLimitName, UserLimitValue), String>)
    ensures
        checked(result) == limit_request(sender_id, change, super_users@, policies.caps()),
{
    if !contains_id(super_users, sender_id) {
        return Err(UNAUTHORIZED_TEXT.to_owned());
    }
    match (change.user_id, change.name, change.value) {
        (Some(user_id), Some(name), Some(value)) => {
            if contains_id(super_users, user_id) {
                return Err(SUPERUSER_POLICY_TEXT.to_owned());
            }
            if let Err(error) = policies.validate_override(name, value) {
                return Err(error.message());
            }
            Ok((user_id, name, value))
        },
        _ => Err(SET_LIMIT_USAGE.to_owned()),
    }
}

/// What is answered once a limit has been set, or could not be.
pub open spec fn limit_set_text(
    user_id: i64,
    name: UserLimitName,
    value: UserLimitValue,
    outcome: Result<bool, Seq<char>>,
) -> Seq<char> {
    let id = signed_decimal(user_id as int);
    match outcome {
        Ok(true) => match value {
            UserLimitValue::Default => limit_column(name) + " for user "@ + id
                + " now uses the package default."@,
            UserLimitValue::Value(value) => limit_column(name) + " for user "@ + id + " set to "@
                + decimal(value as nat) + "."@,
        },
        Ok(false) => "User "@ + id + " does not exist. Add them first."@,
        Err(error) => "Failed to change user limit: "@ + error,
    }
}

pub fn set_limit_reply(
    user_id: i64,
    name: UserLimitName,
    value: UserLimitValue,
    outcome: &Result<bool, String>,
) -> (result: String)
    ensures
        result@ == limit_set_text(user_id, name, value, checked(*outcome)),
{
    let id = write_i64(user_id);
    match outcome {
        Ok(true) => match value {
            UserLimitValue::Default => name.as_str().to_owned().concat(" for user ").concat(
                id.as_str(),
            ).concat(" now uses the package default."),
            UserLimitValue::Value(value) => name.as_str().to_owned().concat(" for user ").concat(
                id.as_str(),
            ).concat(" set to ").concat(write_u64(value).as_str()).concat("."),
        },
        Ok(false) => "User ".to_owned().concat(id.as_str()).concat(
            " does not exist. Add them first.",
        ),
        Err(error) => "Failed to change user limit: ".to_owned().concat(error.as_str()),
    }
}

// ---------------------------------------------------------------------------
// Pages
// ---------------------------------------------------------------------------

/// How many bytes a text takes.
pub open spec fn byte_count(text: Seq<char>) -> nat {
    encode_utf8(text).len()
}

/// The full pages of `lines`, and the page that is being filled.
pub open spec fn pages_so_far(lines: Seq<Seq<char>>, limit: nat) -> (Seq<Seq<char>>, Seq<char>)
    decreases lines.len(),
{
    if lines.len() == 0 {
        (Seq::empty(), Seq::empty())
    } else {
        let (pages, page) = pages_so_far(lines.drop_last(), limit);
        let line = lines.last();
        if page.len() == 0 {
            (pages, line)
        } else if byte_count(page) + 1 + byte_count(line) > limit {
            (pages.push(page), line)
        } else {
            (pages, page + "\n"@ + line)
        }
    }
}

/// Lines put on pages of up to `limit` bytes; a longer line has its own.
pub open spec fn paginated(lines: Seq<Seq<char>>, limit: nat) -> Seq<Seq<char>> {
    let (pages, page) = pages_so_far(lines, limit);
    if page.len() == 0 {
        pages
    } else {
        pages.push(page)
    }
}

pub fn paginate(lines: &[String], limit: usize) -> (result: Vec<String>)
    ensures
        texts(result@) == paginated(texts(lines@), limit as nat),
{
    let ghost all = texts(lines@);
    let mut pages: Vec<String> = Vec::new();
    let mut page = String::new();
    let mut i: usize = 0;
    assert(all.take(0) =~= Seq::empty());
    assert(texts(pages@) =~= Seq::empty());
    while i < lines.len()
        invariant
            i <= lines@.len(),
            all == texts(lines@),
            (texts(pages@), page@) == pages_so_far(all.take(i as int), limit as nat),
        decreases lines@.len() - i,
    {
        let line = lines[i].as_str();
        assert(all.take(i + 1).drop_last() =~= all.take(i as int));
        assert(all.take(i + 1).last() == line@);
        if page.as_str().is_empty() {
            page = line.to_owned();
        } else {
            let taken: u128 = page.as_str().as_bytes().len() as u128;
            let more: u128 = line.as_bytes().len() as u128;
            if taken + 1 + more > limit as u128 {
                push_text(&mut pages, page.as_str());
                page = line.to_owned();
            } else {
                page = page.concat("\n").concat(line);
            }
        }
        i = i + 1;
    }
    assert(all.take(i as int) =~= all);
    if !page.as_str().is_empty() {
        push_text(&mut pages, page.as_str());
    }
    pages
}

// ---------------------------------------------------------------------------
// Statistics
// ---------------------------------------------------------------------------

/// How many jobs came to a decision, or as many as a `u64` holds.
pub open spec fn decided_jobs(stats: DownloadStats) -> nat {
    let sum = (stats.completed_jobs + stats.failed_jobs) as nat;
    if sum <= u64::MAX {
        sum
    } else {
        u64::MAX as nat
    }
}

/// The share of completed jobs among those decided, in percent to one decimal.
/// Each step of the division is rounded to a double.
pub open spec fn success_text(completed: nat, decided: nat) -> Seq<char> {
    if decided == 0 {
        "n/a"@
    } else {
        let (parts, scale) = double_quotient(
            as_double(as_double(completed) * 100),
            as_double(decided),
        );
        rounded_text(parts, scale, 1) + "%"@
    }
}

fn format_success_rate(completed: u64, decided: u64) -> (result: String)
    requires
        completed <= decided,
    ensures
        result@ == success_text(completed as nat, decided as nat),
{
    if decided == 0 {
        return "n/a".to_owned();
    }
    let over: u128 = nearest_double_to(nearest_double(completed) * 100);
    let under: u128 = nearest_double(decided);
    assert(over <= 800 * under);
    let (parts, scale): (u128, u128) = nearest_quotient(over, under);
    write_rounded(parts, scale, 1).concat("%")
}

/// Statistics, in words.
pub open spec fn stats_text(stats: DownloadStats) -> Seq<char> {
    "Accepted: "@ + decimal(stats.accepted_jobs as nat) + " ("@ + decimal(
        stats.accepted_today as nat,
    ) + " today)\nCompleted: "@ + decimal(stats.completed_jobs as nat) + "\nFailed: "@ + decimal(
        stats.failed_jobs as nat,
    ) + "\nCancelled: "@ + decimal(stats.cancelled_jobs as nat) + "\nInterrupted/unknown: "@
        + decimal(stats.interrupted_jobs as nat) + "\nOpen/unresolved: "@ + decimal(
        unresolved(stats),
    ) + "\nSuccess rate (completed vs failed): "@ + success_text(
        stats.completed_jobs as nat,
        decided_jobs(stats),
    )
}

pub fn format_download_stats(stats: DownloadStats) -> (result: String)
    ensures
        result@ == stats_text(stats),
{
    let decided: u64 = stats.completed_jobs.saturating_add(stats.failed_jobs);
    "Accepted: ".to_owned().concat(write_u64(stats.accepted_jobs).as_str()).concat(" (").concat(
        write_u64(stats.accepted_today).as_str(),
    ).concat(" today)\nCompleted: ").concat(write_u64(stats.completed_jobs).as_str()).concat(
        "\nFailed: ",
    ).concat(write_u64(stats.failed_jobs).as_str()).concat("\nCancelled: ").concat(
        write_u64(stats.cancelled_jobs).as_str(),
    ).concat("\nInterrupted/unknown: ").concat(write_u64(stats.interrupted_jobs).as_str()).concat(
        "\nOpen/unresolved: ",
    ).concat(write_u64(stats.unresolved_jobs()).as_str()).concat(
        "\nSuccess rate (completed vs failed): ",
    ).concat(format_success_rate(stats.completed_jobs, decided).as_str())
}

pub fn format_user_stats(identity: &str, stats: DownloadStats) -> (result: String)
    ensures
        result@ == identity@ + "\n"@ + stats_text(stats),
{
    identity.to_owned().concat("\n").concat(format_download_stats(stats).as_str())
}

/// The statistics of the application, in words.
pub open spec fn global_stats_text(stats: GlobalStats) -> Seq<char> {
    "Application download stats\nUsers: "@ + decimal(stats.enabled_users as nat) + " enabled / "@
        + decimal(stats.users as nat) + " stored\n"@ + stats_text(stats.downloads)
}

pub fn format_global_stats(stats: GlobalStats) -> (result: String)
    ensures
        result@ == global_stats_text(stats),
{
    "Application download stats\nUsers: ".to_owned().concat(
        write_u64(stats.enabled_users).as_str(),
    ).concat(" enabled / ").concat(write_u64(stats.users).as_str()).concat(" stored\n").concat(
        format_download_stats(stats.downloads).as_str(),
    )
}

/// What to do for `/stats`.
#[derive(Debug, PartialEq, Eq)]
pub enum StatsStep {
    Reply(String),
    /// Read the statistics of the application.
    ReadAll,
    /// Read that user.
    ReadUser(i64),
    /// Read the statistics of someone whose identity is known.
    ReadStats { user_id: i64, identity: String },
}

pub ghost enum StatsStepView {
    Reply(Seq<char>),
    ReadAll,
    ReadUser(i64),
    ReadStats { user_id: i64, identity: Seq<char> },
}

impl View for StatsStep {
    type V = StatsStepView;

    open spec fn view(&self) -> StatsStepView {
        match self {
            StatsStep::Reply(text) => StatsStepView::Reply(text@),
            StatsStep::ReadAll => StatsStepView::ReadAll,
            StatsStep::ReadUser(user_id) => StatsStepView::ReadUser(*user_id),
            StatsStep::ReadStats { user_id, identity } => StatsStepView::ReadStats {
                user_id: *user_id,
                identity: identity@,
            },
        }
    }
}

/// What `/stats` asks for.
pub open spec fn stats_request(sender_id: i64, target: StatsTarget, super_users: Seq<i64>) -> StatsStepView {
    match target {
        StatsTarget::All => if super_users.contains(sender_id) {
            StatsStepView::ReadAll
        } else {
            StatsStepView::Reply(UNAUTHORIZED_TEXT@)
        },
        _ => {
            let user_id = match target {
                StatsTarget::User(user_id) => user_id,
                _ => sender_id,
            };
            if user_id != sender_id && !super_users.contains(sender_id) {
                StatsStepView::Reply(UNAUTHORIZED_TEXT@)
            } else if super_users.contains(user_id) {
                StatsStepView::ReadStats { user_id, identity: identity_text(user_id, None) }
            } else {
                StatsStepView::ReadUser(user_id)
            }
        },
    }
}

/// Checks `/stats`: what to read, or what to answer instead.
pub fn handle_show_stats(sender_id: i64, target: StatsTarget, super_users: &[i64]) -> (result:
    StatsStep)
    ensures
        result@ == stats_request(sender_id, target, super_users@),
{
    let user_id: i64 = match target {
        StatsTarget::All => {
            if contains_id(super_users, sender_id) {
                return StatsStep::ReadAll;
            }
            return StatsStep::Reply(UNAUTHORIZED_TEXT.to_owned());
        },
        StatsTarget::Own => sender_id,
        StatsTarget::User(user_id) => user_id,
    };
    if user_id != sender_id && !contains_id(super_users, sender_id) {
        StatsStep::Reply(UNAUTHORIZED_TEXT.to_owned())
    } else if contains_id(super_users, user_id) {
        StatsStep::ReadStats { user_id, identity: write_identity(user_id, None) }
    } else {
        StatsStep::ReadUser(user_id)
    }
}

/// What to do once a user has been looked up for their statistics.
pub open spec fn stats_user_step(user_id: i64, found: Result<Option<UserView>, Seq<char>>) -> StatsStepView {
    match found {
        Ok(Some(user)) => StatsStepView::ReadStats {
            user_id,
            identity: identity_text(user_id, Some(user)),
        },
        Ok(None) => StatsStepView::Reply(
            "User "@ + signed_decimal(user_id as int) + " does not exist."@,
        ),
        Err(_) => StatsStepView::Reply(STATISTICS_FAILURE_TEXT@),
    }
}

pub fn stats_user_found(user_id: i64, found: &Result<Option<UserRecord>, String>) -> (result:
    StatsStep)
    ensures
        result@ == stats_user_step(user_id, user_read(*found)),
{
    match found {
        Ok(Some(user)) => StatsStep::ReadStats {
            user_id,
            identity: write_identity(user_id, Some(user)),
        },
        Ok(None) => StatsStep::Reply(
            "User ".to_owned().concat(write_i64(user_id).as_str()).concat(" does not exist."),
        ),
        Err(_) => StatsStep::Reply(STATISTICS_FAILURE_TEXT.to_owned()),
    }
}

/// What is answered once the statistics of a user have been read.
pub fn user_stats_reply(identity: &str, stats: &Result<DownloadStats, String>) -> (result: String)
    ensures
        result@ == (match *stats {
            Ok(stats) => identity@ + "\n"@ + stats_text(stats),
            Err(_) => STATISTICS_FAILURE_TEXT@,
        }),
{
    match stats {
        Ok(stats) => format_user_stats(identity, *stats),
        Err(_) => STATISTICS_FAILURE_TEXT.to_owned(),
    }
}

/// What is answered once the statistics of the application have been read.
pub fn global_stats_reply(stats: &Result<GlobalStats, String>) -> (result: String)
    ensures
        result@ == (match *stats {
            Ok(stats) => global_stats_text(stats),
            Err(_) => STATISTICS_FAILURE_TEXT@,
        }),
{
    match stats {
        Ok(stats) => format_global_stats(*stats),
        Err(_) => STATISTICS_FAILURE_TEXT.to_owned(),
    }
}

// ---------------------------------------------------------------------------
// Listing
// ---------------------------------------------------------------------------

/// How a user is known on Telegram.
#[derive(Debug, PartialEq, Eq)]
pub struct UserProfile {
    pub username: Option<String>,
    pub full_name: Option<String>,
}

pub ghost struct ProfileView {
    pub username: Option<Seq<char>>,
    pub full_name: Option<Seq<char>>,
}

impl View for UserProfile {
    type V = ProfileView;

    open spec fn view(&self) -> ProfileView {
        ProfileView { username: text_of(self.username), full_name: text_of(self.full_name) }
    }
}

/// The profile of a user with an own username, perhaps further ones, and a name.
pub fn resolve_user_profile(username: &Option<String>, usernames: &[String], full_name: &str) -> (result:
    UserProfile)
    ensures
        result@ == (ProfileView {
            username: match text_of(*username) {
                Some(name) => Some(name),
                None => if usernames@.len() > 0 {
                    Some(usernames@[0]@)
                } else {
                    None
                },
            },
            full_name: if trimmed(full_name@).len() == 0 {
                None
            } else {
                Some(full_name@)
            },
        }),
{
    let username = match username {
        Some(name) => Some(name.clone()),
        None => if usernames.len() > 0 {
            Some(usernames[0].clone())
        } else {
            None
        },
    };
    let full_name = if trim(full_name).as_str().is_empty() {
        None
    } else {
        Some(full_name.to_owned())
    };
    UserProfile { username, full_name }
}

pub open spec fn profile_seen(profile: Option<&UserProfile>) -> Option<ProfileView> {
    match profile {
        Some(profile) => Some(profile@),
        None => None,
    }
}

/// What a user is called: their ID, and their names as far as they are known.
pub open spec fn name_fields(user_id: i64, profile: Option<ProfileView>) -> Seq<Seq<char>> {
    let id = seq![signed_decimal(user_id as int)];
    match profile {
        None => id,
        Some(profile) => {
            let named = match profile.username {
                Some(name) => id.push("@"@ + name),
                None => id,
            };
            match profile.full_name {
                Some(name) => named.push(name),
                None => named,
            }
        },
    }
}

/// What stands behind a user in the list.
pub open spec fn badges_text(is_superuser: bool, user: Option<UserView>) -> Seq<char> {
    if is_superuser {
        " [superuser]"@
    } else {
        match user {
            None => ""@,
            Some(user) => " ["@ + user.package + "]"@ + (if user.enabled {
                ""@
            } else {
                " [disabled]"@
            }),
        }
    }
}

/// A user in the list.
pub open spec fn user_line(
    user_id: i64,
    profile: Option<ProfileView>,
    is_superuser: bool,
    user: Option<UserView>,
) -> Seq<char> {
    joined(name_fields(user_id, profile), " — "@) + badges_text(is_superuser, user)
}

pub fn format_user_line(
    user_id: i64,
    profile: Option<&UserProfile>,
    is_superuser: bool,
    user: Option<&UserRecord>,
) -> (result: String)
    ensures
        result@ == user_line(user_id, profile_seen(profile), is_superuser, user_seen(user)),
{
    let mut fields: Vec<String> = Vec::new();
    push_text(&mut fields, write_i64(user_id).as_str());
    assert(texts(fields@) =~= seq![signed_decimal(user_id as int)]);
    if let Some(profile) = profile {
        if let Some(username) = &profile.username {
            push_text(&mut fields, "@".to_owned().concat(username.as_str()).as_str());
        }
        if let Some(full_name) = &profile.full_name {
            push_text(&mut fields, full_name.as_str());
        }
    }
    let badges = if is_superuser {
        " [superuser]".to_owned()
    } else {
        match user {
            None => "".to_owned(),
            Some(user) => {
                let state = if user.enabled {
                    ""
                } else {
                    " [disabled]"
                };
                " [".to_owned().concat(user.package.as_str()).concat("]").concat(state)
            },
        }
    };
    join(&fields, " — ").concat(badges.as_str())
}

/// Checks `/list`: whether to list users, or what to answer instead.
pub fn handle_list(sender_id: i64, super_users: &[i64]) -> (result: Result<(), String>)
    ensures
        checked(result) == (if super_users@.contains(sender_id) {
            Ok::<(), Seq<char>>(())
        } else {
            Err::<(), Seq<char>>(UNAUTHORIZED_TEXT@)
        }),
{
    if contains_id(super_users, sender_id) {
        Ok(())
    } else {
        Err(UNAUTHORIZED_TEXT.to_owned())
    }
}

/// What is answered when users cannot be listed.
pub fn list_failure(error: &str) -> (result: String)
    ensures
        result@ == "Failed to list users: "@ + error@,
{
    "Failed to list users: ".to_owned().concat(error)
}

/// Whether a user of that ID is among those stored.
pub open spec fn is_stored(stored: Seq<UserRecord>, user_id: i64) -> bool {
    exists|i: int| 0 <= i < stored.len() && #[trigger] stored[i].telegram_id == user_id
}

/// Everyone who is listed, in order: those stored, and the superusers.
pub open spec fn lists_everyone(ids: Seq<i64>, stored: Seq<UserRecord>, super_users: Seq<i64>) -> bool {
    &&& is_ordered(ids)
    &&& forall|id: i64| #[trigger]
        ids.contains(id) <==> is_stored(stored, id) || super_users.contains(id)
}

pub fn users_to_list(stored: &[UserRecord], super_users: &[i64]) -> (result: Vec<i64>)
    ensures
        lists_everyone(result@, stored@, super_users@),
{
    let mut ids: Vec<i64> = Vec::new();
    let mut i: usize = 0;
    while i < stored.len()
        invariant
            i <= stored@.len(),
            is_ordered(ids@),
            forall|id: i64| #[trigger]
                ids@.contains(id) <==> is_stored(stored@.take(i as int), id),
        decreases stored@.len() - i,
    {
        let ghost before = ids@;
        insert_id(&mut ids, stored[i].telegram_id);
        proof {
            let now = stored@.take(i + 1);
            assert forall|id: i64| #[trigger] ids@.contains(id) <==> is_stored(now, id) by {
                assert(before.contains(id) <==> is_stored(stored@.take(i as int), id));
                if is_stored(stored@.take(i as int), id) {
                    let k = choose|k: int|
                        0 <= k < i && #[trigger] stored@.take(i as int)[k].telegram_id == id;
                    assert(now[k].telegram_id == id);
                }
                if id == stored@[i as int].telegram_id {
                    assert(now[i as int].telegram_id == id);
                }
                if is_stored(now, id) {
                    let k = choose|k: int| 0 <= k <= i && #[trigger] now[k].telegram_id == id;
                    if k < i {
                        assert(stored@.take(i as int)[k].telegram_id == id);
                    }
                }
            }
        }
        i = i + 1;
    }
    assert(stored@.take(i as int) =~= stored@);
    insert_all(&mut ids, super_users);
    ids
}

/// The last user of that ID among those stored.
pub open spec fn stored_user(stored: Seq<UserRecord>, user_id: i64) -> Option<UserView>
    decreases stored.len(),
{
    if stored.len() == 0 {
        None
    } else if stored.last().telegram_id == user_id {
        Some(stored.last()@)
    } else {
        stored_user(stored.drop_last(), user_id)
    }
}

fn find_user<'a>(stored: &'a [UserRecord], user_id: i64) -> (result: Option<&'a UserRecord>)
    ensures
        user_seen(result) == stored_user(stored@, user_id),
{
    let mut i: usize = stored.len();
    assert(stored@.take(i as int) =~= stored@);
    while i > 0
        invariant
            i <= stored@.len(),
            stored_user(stored@, user_id) == stored_user(stored@.take(i as int), user_id),
        decreases i,
    {
        assert(stored@.take(i as int).drop_last() =~= stored@.take(i - 1));
        if stored[i - 1].telegram_id == user_id {
            return Some(&stored[i - 1]);
        }
        i = i - 1;
    }
    None
}

/// The last profile that was found for that ID.
pub open spec fn found_profile(profiles: Seq<(i64, UserProfile)>, user_id: i64) -> Option<ProfileView>
    decreases profiles.len(),
{
    if profiles.len() == 0 {
        None
    } else if profiles.last().0 == user_id {
        Some(profiles.last().1@)
    } else {
        found_profile(profiles.drop_last(), user_id)
    }
}

fn find_profile<'a>(profiles: &'a [(i64, UserProfile)], user_id: i64) -> (result: Option<
    &'a UserProfile,
>)
    ensures
        profile_seen(result) == found_profile(profiles@, user_id),
{
    let mut i: usize = profiles.len();
    assert(profiles@.take(i as int) =~= profiles@);
    while i > 0
        invariant
            i <= profiles@.len(),
            found_profile(profiles@, user_id) == found_profile(profiles@.take(i as int), user_id),
        decreases i,
    {
        assert(profiles@.take(i as int).drop_last() =~= profiles@.take(i - 1));
        if profiles[i - 1].0 == user_id {
            return Some(&profiles[i - 1].1);
        }
        i = i - 1;
    }
    None
}

/// The list of users, one line for each.
pub open spec fn user_lines(
    ids: Seq<i64>,
    stored: Seq<UserRecord>,
    super_users: Seq<i64>,
    profiles: Seq<(i64, UserProfile)>,
) -> Seq<Seq<char>> {
    seq!["Configured users ("@ + decimal(ids.len()) + "):"@] + Seq::new(
        ids.len(),
        |i: int|
            user_line(
                ids[i],
                found_profile(profiles, ids[i]),
                super_users.contains(ids[i]),
                stored_user(stored, ids[i]),
            ),
    )
}

/// The list of users, page by page.
pub fn list_users(stored: &[UserRecord], super_users: &[i64], profiles: &[(i64, UserProfile)]) -> (result:
    Vec<String>)
    ensures
        exists|ids: Seq<i64>| #[trigger]
            lists_everyone(ids, stored@, super_users@) && texts(result@) == paginated(
                user_lines(ids, stored@, super_users@, profiles@),
                TELEGRAM_TEXT_LIMIT as nat,
            ),
{
    let ids = users_to_list(stored, super_users);
    let ghost expected = user_lines(ids@, stored@, super_users@, profiles@);
    let mut lines: Vec<String> = Vec::new();
    push_text(
        &mut lines,
        "Configured users (".to_owned().concat(write_usize(ids.len()).as_str()).concat(
            "):",
        ).as_str(),
    );
    assert(texts(lines@) =~= expected.take(1));
    let mut i: usize = 0;
    while i < ids.len()
        invariant
            i <= ids@.len(),
            expected == user_lines(ids@, stored@, super_users@, profiles@),
            texts(lines@) == expected.take(i + 1),
        decreases ids@.len() - i,
    {
        let line = format_user_line(
            ids[i],
            find_profile(profiles, ids[i]),
            contains_id(super_users, ids[i]),
            find_user(stored, ids[i]),
        );
        push_text(&mut lines, line.as_str());
        assert(texts(lines@) =~= expected.take(i + 2));
        i = i + 1;
    }
    assert(expected.take(i + 1) =~= expected);
    paginate(&lines, TELEGRAM_TEXT_LIMIT)
}

// ---------------------------------------------------------------------------
// Laws
// ---------------------------------------------------------------------------

/// Pages drop nothing: joined again, they are the joined lines, where no line is
/// empty.
pub proof fn law_pages_drop_nothing(lines: Seq<Seq<char>>, limit: nat)
    requires
        forall|i: int| 0 <= i < lines.len() ==> #[trigger] lines[i].len() > 0,
    ensures
        joined(paginated(lines, limit), "\n"@) == joined(lines, "\n"@),
    decreases lines.len(),
{
    if lines.len() > 0 {
        let fewer = lines.drop_last();
        let line = lines.last();
        assert(line == lines[lines.len() - 1]);
        assert forall|i: int| 0 <= i < fewer.len() implies #[trigger] fewer[i].len() > 0 by {
            assert(fewer[i] == lines[i]);
        }
        law_pages_drop_nothing(fewer, limit);
        lemma_page_is_filled(fewer, limit);
        lemma_page_is_filled(lines, limit);
        let (pages, page) = pages_so_far(fewer, limit);
        if page.len() == 0 {
            assert(pages.push(line).drop_last() =~= pages);
        } else {
            let before = pages.push(page);
            assert(before.drop_last() =~= pages);
            if byte_count(page) + 1 + byte_count(line) > limit {
                assert(before.push(line).drop_last() =~= before);
            } else {
                let longer = page + "\n"@ + line;
                assert(pages.push(longer).drop_last() =~= pages);
                if pages.len() > 0 {
                    assert(joined(pages, "\n"@) + "\n"@ + longer =~= joined(pages, "\n"@) + "\n"@
                        + page + "\n"@ + line);
                }
            }
        }
    }
}

proof fn lemma_page_is_filled(lines: Seq<Seq<char>>, limit: nat)
    requires
        forall|i: int| 0 <= i < lines.len() ==> #[trigger] lines[i].len() > 0,
    ensures
        lines.len() > 0 <==> pages_so_far(lines, limit).1.len() > 0,
        lines.len() == 0 ==> pages_so_far(lines, limit).0.len() == 0,
    decreases lines.len(),
{
    if lines.len() > 0 {
        assert(lines.last() == lines[lines.len() - 1]);
    }
}

/// Whether a page keeps to the limit, or holds one long line.
pub open spec fn page_fits(page: Seq<char>, lines: Seq<Seq<char>>, limit: nat) -> bool {
    byte_count(page) <= limit || lines.contains(page)
}

/// A page is longer than the limit only if it is one long line.
pub proof fn law_pages_keep_to_the_limit(lines: Seq<Seq<char>>, limit: nat, i: int)
    requires
        0 <= i < paginated(lines, limit).len(),
    ensures
        page_fits(paginated(lines, limit)[i], lines, limit),
{
    lemma_pages_fit(lines, limit);
    let (pages, page) = pages_so_far(lines, limit);
    if i < pages.len() {
        assert(page_fits(pages[i], lines, limit));
    }
}

proof fn lemma_pages_fit(lines: Seq<Seq<char>>, limit: nat)
    ensures
        forall|i: int|
            0 <= i < pages_so_far(lines, limit).0.len() ==> page_fits(
                #[trigger] pages_so_far(lines, limit).0[i],
                lines,
                limit,
            ),
        pages_so_far(lines, limit).1.len() > 0 ==> page_fits(
            pages_so_far(lines, limit).1,
            lines,
            limit,
        ),
    decreases lines.len(),
{
    if lines.len() > 0 {
        let fewer = lines.drop_last();
        let line = lines.last();
        lemma_pages_fit(fewer, limit);
        let (pages, page) = pages_so_far(fewer, limit);
        assert(lines[lines.len() - 1] == line);
        assert(lines.contains(line));
        assert forall|t: Seq<char>| #[trigger] fewer.contains(t) implies lines.contains(t) by {
            let k = choose|k: int| 0 <= k < fewer.len() && fewer[k] == t;
            assert(lines[k] == t);
        }
        assert forall|i: int| 0 <= i < pages.len() implies page_fits(
            #[trigger] pages[i],
            lines,
            limit,
        ) by {
            assert(page_fits(pages[i], fewer, limit));
        }
        if page.len() > 0 && byte_count(page) + 1 + byte_count(line) <= limit {
            reveal_strlit("\n");
            lemma_byte_count_adds(page, "\n"@);
            lemma_byte_count_adds(page + "\n"@, line);
            assert(byte_count("\n"@) == 1) by {
                reveal_with_fuel(encode_utf8, 2);
                assert("\n"@ =~= seq!['\n']);
                assert("\n"@.drop_first() =~= Seq::empty());
            }
        }
    }
}

pub proof fn lemma_byte_count_adds(left: Seq<char>, right: Seq<char>)
    ensures
        byte_count(left + right) == byte_count(left) + byte_count(right),
    decreases left.len(),
{
    if left.len() == 0 {
        assert(left + right =~= right);
    } else {
        assert((left + right).drop_first() =~= left.drop_first() + right);
        lemma_byte_count_adds(left.drop_first(), right);
    }
}

/// Only superusers manage others: whoever is not one adds, removes and changes
/// nobody, lists nobody, and reads only their own limits and statistics.
pub proof fn law_only_superusers_manage_users(
    sender_id: i64,
    super_users: Seq<i64>,
    user_id: Option<i64>,
    package: Option<Seq<char>>,
    change: LimitChange,
    other: i64,
    policies: UserPolicies,
)
    requires
        !super_users.contains(sender_id),
        other != sender_id,
    ensures
        add_request(sender_id, user_id, super_users) is Err,
        remove_request(sender_id, user_id, super_users) is Err,
        package_request(sender_id, user_id, package, super_users, policies) is Err,
        limit_request(sender_id, change, super_users, policies.caps()) is Err,
        limits_request(sender_id, Some(other), super_users, policies.caps()) == Err::<i64, _>(
            UNAUTHORIZED_TEXT@,
        ),
        stats_request(sender_id, StatsTarget::All, super_users) == StatsStepView::Reply(
            UNAUTHORIZED_TEXT@,
        ),
        stats_request(sender_id, StatsTarget::User(other), super_users) == StatsStepView::Reply(
            UNAUTHORIZED_TEXT@,
        ),
{
}

/// Superusers cannot be removed, and keep their policy.
pub proof fn law_superusers_are_left_alone(
    sender_id: i64,
    super_users: Seq<i64>,
    user_id: i64,
    package: Option<Seq<char>>,
    name: Option<UserLimitName>,
    value: Option<UserLimitValue>,
    policies: UserPolicies,
)
    requires
        super_users.contains(user_id),
    ensures
        remove_request(sender_id, Some(user_id), super_users) is Err,
        package_request(sender_id, Some(user_id), package, super_users, policies) is Err,
        limit_request(
            sender_id,
            LimitChange { user_id: Some(user_id), name, value },
            super_users,
            policies.caps(),
        ) is Err,
{
}

/// Cancelled and interrupted jobs do not count for the success rate.
pub proof fn law_success_ignores_cancelled_jobs(stats: DownloadStats, other: DownloadStats)
    requires
        stats.completed_jobs == other.completed_jobs,
        stats.failed_jobs == other.failed_jobs,
    ensures
        success_text(stats.completed_jobs as nat, decided_jobs(stats)) == success_text(
            other.completed_jobs as nat,
            decided_jobs(other),
        ),
{
}

} // verus!
