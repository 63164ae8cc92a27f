//! What the database holds, and what is read off it.

use vstd::prelude::*;

use crate::number::signed_decimal;
use crate::policy::{UserLimitName, UserLimitOverrides, UserLimitValue, package_in};
use crate::store::{
    DownloadStatOutcome, StatsColumns, StoreError, StoreField, StoredStats, StoredUser, Tables,
    UserColumns, UserView, WriteView, add_outcome, add_writes, applied, applied_all, daily_count,
    may_use, private_files, remove_outcome, remove_writes, statement, stats_in, stats_of,
    stored_limit, stored_u64, stored_usize, touched_rows, user_at, user_in,
};

verus! {

// ---------------------------------------------------------------------------
// Rows
// ---------------------------------------------------------------------------

/// A stored limit is read as the number that it is, or as none; what is not
/// positive is no limit.
pub proof fn law_stored_limits_are_read(number: i64, name: UserLimitName)
    ensures
        stored_u64(None, name) == Ok::<Option<u64>, StoreError>(None),
        stored_usize(None, name) == Ok::<Option<usize>, StoreError>(None),
        number > 0 ==> stored_u64(Some(number), name) == Ok::<Option<u64>, StoreError>(
            Some(number as u64),
        ),
        0 < number <= usize::MAX ==> stored_usize(Some(number), name) == Ok::<
            Option<usize>,
            StoreError,
        >(Some(number as usize)),
        number <= 0 ==> stored_u64(Some(number), name) == Err::<Option<u64>, StoreError>(
            StoreError::InvalidField(StoreField::Limit(name)),
        ),
        number <= 0 || number > usize::MAX ==> stored_usize(Some(number), name) == Err::<
            Option<usize>,
            StoreError,
        >(StoreError::InvalidField(StoreField::Limit(name))),
{
}

/// Whether a column holds nothing, or a positive number.
pub open spec fn is_limit(column: Option<i64>) -> bool {
    column matches Some(number) ==> 0 < number <= usize::MAX
}

/// A row of users is read if each of its columns makes sense: the user has the
/// ID, the package and each limit of that row, and is enabled if the row says so.
pub proof fn law_rows_are_read(row: UserColumns)
    requires
        is_limit(row.max_active_jobs),
        is_limit(row.max_queued_jobs),
        is_limit(row.daily_job_limit),
        is_limit(row.max_upload_size_mb),
        package_in(row.package@) is Some,
    ensures
        row.enabled == 0 || row.enabled == 1 ==> (user_in(row) matches Ok(user) && {
            &&& user.telegram_id == row.telegram_id
            &&& user.enabled == (row.enabled == 1)
            &&& Some(user.package) == package_in(row.package@)
            &&& (user.limits.max_active_jobs is Some) == (row.max_active_jobs is Some)
            &&& row.max_active_jobs matches Some(number) ==> user.limits.max_active_jobs->0
                == number
            &&& (user.limits.max_queued_jobs is Some) == (row.max_queued_jobs is Some)
            &&& row.max_queued_jobs matches Some(number) ==> user.limits.max_queued_jobs->0
                == number
            &&& (user.limits.daily_job_limit is Some) == (row.daily_job_limit is Some)
            &&& row.daily_job_limit matches Some(number) ==> user.limits.daily_job_limit->0
                == number
            &&& (user.limits.max_upload_size_mb is Some) == (row.max_upload_size_mb is Some)
            &&& row.max_upload_size_mb matches Some(number) ==> user.limits.max_upload_size_mb->0
                == number
        }),
        row.enabled != 0 && row.enabled != 1 ==> user_in(row) == Err::<UserView, StoreError>(
            StoreError::InvalidEnabled,
        ),
{
}

/// A row that does not make sense is not read, and the error names the column.
pub proof fn law_broken_rows_are_named(row: UserColumns)
    requires
        row.enabled == 0 || row.enabled == 1,
    ensures
        package_in(row.package@) is None ==> user_in(row) == Err::<UserView, StoreError>(
            StoreError::InvalidPackage,
        ),
        package_in(row.package@) is Some && !is_limit(row.max_active_jobs) ==> user_in(row)
            == Err::<UserView, StoreError>(
            StoreError::InvalidField(StoreField::Limit(UserLimitName::MaxActiveJobs)),
        ),
        package_in(row.package@) is Some && is_limit(row.max_active_jobs) && !is_limit(
            row.max_queued_jobs,
        ) ==> user_in(row) == Err::<UserView, StoreError>(
            StoreError::InvalidField(StoreField::Limit(UserLimitName::MaxQueuedJobs)),
        ),
        package_in(row.package@) is Some && is_limit(row.max_active_jobs) && is_limit(
            row.max_queued_jobs,
        ) && row.daily_job_limit is Some && row.daily_job_limit->0 <= 0 ==> user_in(row) == Err::<
            UserView,
            StoreError,
        >(StoreError::InvalidField(StoreField::Limit(UserLimitName::DailyJobLimit))),
        package_in(row.package@) is Some && is_limit(row.max_active_jobs) && is_limit(
            row.max_queued_jobs,
        ) && row.daily_job_limit is None && row.max_upload_size_mb is Some
            && row.max_upload_size_mb->0 <= 0 ==> user_in(row) == Err::<UserView, StoreError>(
            StoreError::InvalidField(StoreField::Limit(UserLimitName::MaxUploadSizeMb)),
        ),
{
}

/// A row of statistics is read number by number, if none is negative.
pub proof fn law_statistics_are_read(row: StatsColumns)
    ensures
        stats_in(row) is Ok <==> {
            &&& row.accepted_jobs >= 0
            &&& row.completed_jobs >= 0
            &&& row.failed_jobs >= 0
            &&& row.cancelled_jobs >= 0
            &&& row.interrupted_jobs >= 0
            &&& row.accepted_today >= 0
        },
        stats_in(row) matches Ok(stats) ==> {
            &&& stats.accepted_jobs == row.accepted_jobs
            &&& stats.completed_jobs == row.completed_jobs
            &&& stats.failed_jobs == row.failed_jobs
            &&& stats.cancelled_jobs == row.cancelled_jobs
            &&& stats.interrupted_jobs == row.interrupted_jobs
            &&& stats.accepted_today == row.accepted_today
        },
{
}

/// A limit that is set can be stored as far as a signed number reaches; one that
/// is taken back is stored as nothing.
pub proof fn law_limits_are_stored(number: u64)
    ensures
        stored_limit(UserLimitValue::Default) == Some(None::<i64>),
        number <= i64::MAX ==> stored_limit(UserLimitValue::Value(number)) == Some(
            Some(number as i64),
        ),
        number > i64::MAX ==> stored_limit(UserLimitValue::Value(number)) is None,
{
}

/// The error messages say what is wrong.
pub proof fn law_store_errors_are_told(name: UserLimitName, version: i64)
    ensures
        StoreError::InvalidUserId.says() == "user ID must be positive"@,
        StoreError::LimitTooLarge.says() == "limit is too large to store"@,
        StoreError::InvalidEnabled.says() == "database contains an invalid enabled value"@,
        StoreError::InvalidPackage.says() == "database contains an invalid package name"@,
        StoreError::InvalidField(StoreField::AcceptedJobs).says() == "database contains an invalid "@
            + "accepted_jobs"@,
        StoreError::InvalidField(StoreField::CompletedJobs).says()
            == "database contains an invalid "@ + "completed_jobs"@,
        StoreError::InvalidField(StoreField::FailedJobs).says() == "database contains an invalid "@
            + "failed_jobs"@,
        StoreError::InvalidField(StoreField::CancelledJobs).says()
            == "database contains an invalid "@ + "cancelled_jobs"@,
        StoreError::InvalidField(StoreField::InterruptedJobs).says()
            == "database contains an invalid "@ + "interrupted_jobs"@,
        StoreError::InvalidField(StoreField::AcceptedToday).says()
            == "database contains an invalid "@ + "accepted_today"@,
        StoreError::NewerSchema(version).says() == "database schema version "@ + signed_decimal(
            version as int,
        ) + " is newer than supported version "@ + signed_decimal(2),
        StoreError::NoMigration(version).says() == "no migration path from database schema version "@
            + signed_decimal(version as int),
        StoreError::ClockOutOfRange.says() == "system clock is out of range"@,
{
}

// ---------------------------------------------------------------------------
// Changes
// ---------------------------------------------------------------------------

/// Whoever is added may use the application, whatever they were before, and is
/// told apart from those who could already; nobody else changes.
pub proof fn law_added_users_may_use_the_application(
    tables: Tables,
    user_id: i64,
    package: Seq<char>,
    now: i64,
    other: i64,
)
    requires
        other != user_id,
    ensures
        ({
            let before = user_at(tables, user_id);
            let after = applied_all(tables, add_writes(user_id, before, package, now));
            &&& may_use(user_at(after, user_id))
            &&& user_at(after, other) == user_at(tables, other)
            &&& after.stats == tables.stats
            &&& after.daily == tables.daily
            &&& add_outcome(before) is Added <==> before is None
            &&& add_outcome(before) is AlreadyEnabled <==> before is Some && before->0.enabled
            &&& add_outcome(before) is Reenabled <==> before is Some && !before->0.enabled
            &&& before is None ==> user_at(after, user_id)->0.package == package && user_at(
                after,
                user_id,
            )->0.limits == (UserLimitOverrides {
                max_active_jobs: None,
                max_queued_jobs: None,
                daily_job_limit: None,
                max_upload_size_mb: None,
            })
            &&& before is Some ==> user_at(after, user_id)->0.package == before->0.package
                && user_at(after, user_id)->0.limits == before->0.limits
        }),
{
    reveal_with_fuel(applied_all, 2);
    let before = user_at(tables, user_id);
    let writes = add_writes(user_id, before, package, now);
    if writes.len() > 0 {
        assert(writes.drop_last() =~= Seq::empty());
    }
}

/// Whoever is removed may not use the application any more; nobody else changes.
pub proof fn law_removed_users_may_not_use_the_application(
    tables: Tables,
    user_id: i64,
    now: i64,
    other: i64,
)
    requires
        other != user_id,
    ensures
        ({
            let before = user_at(tables, user_id);
            let after = applied_all(tables, remove_writes(user_id, before, now));
            &&& !may_use(user_at(after, user_id))
            &&& user_at(after, other) == user_at(tables, other)
            &&& after.stats == tables.stats
            &&& after.daily == tables.daily
            &&& remove_outcome(before) is NotFound <==> before is None
            &&& remove_outcome(before) is Disabled <==> before is Some && before->0.enabled
            &&& remove_outcome(before) is AlreadyDisabled <==> before is Some && !before->0.enabled
        }),
{
    reveal_with_fuel(applied_all, 2);
    let before = user_at(tables, user_id);
    let writes = remove_writes(user_id, before, now);
    if writes.len() > 0 {
        assert(writes.drop_last() =~= Seq::empty());
    }
}

/// Only enabled users may use the application.
pub proof fn law_enabled_users_may_use_the_application(user: UserView)
    ensures
        may_use(Some(user)) == user.enabled,
        !may_use(None),
{
}

/// Each outcome is counted under its own name.
pub proof fn law_outcomes_have_their_own_counts(tables: Tables, user_id: i64, now: i64)
    ensures
        ({
            let before = stats_of(tables, user_id);
            let after = |outcome: DownloadStatOutcome|
                stats_of(applied(tables, WriteView::AddOutcome { user_id, outcome, now }), user_id);
            &&& after(DownloadStatOutcome::Completed) == (StoredStats {
                completed: before.completed + 1,
                ..before
            })
            &&& after(DownloadStatOutcome::Failed) == (StoredStats {
                failed: before.failed + 1,
                ..before
            })
            &&& after(DownloadStatOutcome::Cancelled) == (StoredStats {
                cancelled: before.cancelled + 1,
                ..before
            })
        }),
{
}

/// Setting a limit sets that limit and no other; the database counts one changed
/// row if the user is there, and none otherwise.
pub proof fn law_limits_are_set_one_by_one(
    tables: Tables,
    user_id: i64,
    number: i64,
    now: i64,
    name: UserLimitName,
)
    requires
        0 < number <= usize::MAX,
    ensures
        ({
            let set = |name: UserLimitName, value: Option<i64>|
                applied(tables, WriteView::SetLimit { user_id, name, value, now });
            &&& touched_rows(
                tables,
                WriteView::SetLimit { user_id, name, value: Some(number), now },
            ) == if tables.users.contains_key(user_id) {
                1nat
            } else {
                0nat
            }
            &&& !tables.users.contains_key(user_id) ==> set(name, Some(number)) == tables
            &&& tables.users.contains_key(user_id) ==> {
                let before = tables.users[user_id];
                &&& set(UserLimitName::MaxActiveJobs, Some(number)).users[user_id] == (StoredUser {
                    limits: UserLimitOverrides {
                        max_active_jobs: Some(number as usize),
                        ..before.limits
                    },
                    ..before
                })
                &&& set(UserLimitName::MaxQueuedJobs, Some(number)).users[user_id] == (StoredUser {
                    limits: UserLimitOverrides {
                        max_queued_jobs: Some(number as usize),
                        ..before.limits
                    },
                    ..before
                })
                &&& set(UserLimitName::DailyJobLimit, Some(number)).users[user_id] == (StoredUser {
                    limits: UserLimitOverrides {
                        daily_job_limit: Some(number as u64),
                        ..before.limits
                    },
                    ..before
                })
                &&& set(UserLimitName::MaxUploadSizeMb, Some(number)).users[user_id]
                    == (StoredUser {
                    limits: UserLimitOverrides {
                        max_upload_size_mb: Some(number as u64),
                        ..before.limits
                    },
                    ..before
                })
                &&& set(UserLimitName::MaxActiveJobs, None).users[user_id].limits.max_active_jobs
                    is None
                &&& set(UserLimitName::MaxQueuedJobs, None).users[user_id].limits.max_queued_jobs
                    is None
                &&& set(UserLimitName::DailyJobLimit, None).users[user_id].limits.daily_job_limit
                    is None
                &&& set(
                    UserLimitName::MaxUploadSizeMb,
                    None,
                ).users[user_id].limits.max_upload_size_mb is None
            }
        }),
{
}

/// The database counts as many changed rows as there are rows to change.
pub proof fn law_changed_rows_are_counted(
    tables: Tables,
    user_id: i64,
    utc_day: i64,
    package: Seq<char>,
    now: i64,
)
    ensures
        ({
            let there = if tables.users.contains_key(user_id) {
                1nat
            } else {
                0nat
            };
            &&& touched_rows(tables, WriteView::InsertUser { user_id, package, now }) == 1
            &&& touched_rows(tables, WriteView::InsertUserIfAbsent { user_id, package, now })
                + there == 1
            &&& touched_rows(tables, WriteView::SetEnabled { user_id, enabled: true, now }) == there
            &&& touched_rows(tables, WriteView::SetEnabled { user_id, enabled: false, now })
                == there
            &&& touched_rows(tables, WriteView::SetPackage { user_id, package, now }) == there
            &&& touched_rows(tables, WriteView::AddDailyUse { user_id, utc_day }) == 1
            &&& touched_rows(tables, WriteView::AddAccepted { user_id, now }) == 1
            &&& touched_rows(tables, WriteView::DropDailyUse { user_id, utc_day })
                == if tables.daily.contains_key((user_id, utc_day)) {
                1nat
            } else {
                0nat
            }
            &&& touched_rows(tables, WriteView::DropAccepted { user_id, now })
                == if tables.stats.contains_key(user_id) {
                1nat
            } else {
                0nat
            }
        }),
{
}

/// A job that is counted is counted for its user and its day, and can be taken
/// back down to none; nobody else's jobs change.
pub proof fn law_jobs_are_counted_for_their_users(
    tables: Tables,
    user_id: i64,
    utc_day: i64,
    other: i64,
    other_day: i64,
    now: i64,
)
    requires
        other != user_id,
        other_day != utc_day,
    ensures
        ({
            let more = applied(tables, WriteView::AddDailyUse { user_id, utc_day });
            let fewer = applied(tables, WriteView::DropDailyUse { user_id, utc_day });
            let count = daily_count(tables, user_id, utc_day);
            &&& daily_count(more, user_id, utc_day) == count + 1
            &&& daily_count(more, user_id, other_day) == daily_count(tables, user_id, other_day)
            &&& daily_count(more, other, utc_day) == daily_count(tables, other, utc_day)
            &&& count > 0 ==> daily_count(fewer, user_id, utc_day) == count - 1
            &&& count == 0 ==> daily_count(fewer, user_id, utc_day) == 0
            &&& daily_count(fewer, other, utc_day) == daily_count(tables, other, utc_day)
            &&& daily_count(
                Tables { daily: Map::empty(), ..tables },
                user_id,
                utc_day,
            ) == 0
        }),
        ({
            let more = applied(tables, WriteView::AddAccepted { user_id, now });
            let fewer = applied(tables, WriteView::DropAccepted { user_id, now });
            let count = stats_of(tables, user_id).accepted;
            &&& stats_of(more, user_id) == (StoredStats {
                accepted: count + 1,
                ..stats_of(tables, user_id)
            })
            &&& stats_of(more, other) == stats_of(tables, other)
            &&& count > 0 ==> stats_of(fewer, user_id) == (StoredStats {
                accepted: (count - 1) as nat,
                ..stats_of(tables, user_id)
            })
            &&& count == 0 ==> stats_of(fewer, user_id).accepted == 0
            &&& stats_of(fewer, other) == stats_of(tables, other)
        }),
{
}

/// The files of a database that only their owner may read: the database itself
/// and what is kept beside it. One in memory has none.
pub proof fn law_database_files_are_private(path: Seq<char>)
    ensures
        private_files(":memory:"@) == Seq::<Seq<char>>::empty(),
        path != ":memory:"@ ==> {
            &&& private_files(path).contains(path)
            &&& private_files(path).contains(path + "-journal"@)
            &&& private_files(path).contains(path + "-shm"@)
            &&& private_files(path).contains(path + "-tshm"@)
            &&& private_files(path).contains(path + "-wal"@)
            &&& private_files(path).len() == 5
        },
{
    if path != ":memory:"@ {
        let files = private_files(path);
        assert(files[0] == path);
        assert(files[1] == path + "-journal"@);
        assert(files[2] == path + "-shm"@);
        assert(files[3] == path + "-tshm"@);
        assert(files[4] == path + "-wal"@);
    }
}

// ---------------------------------------------------------------------------
// Statements
// ---------------------------------------------------------------------------

/// The statements that change users.
pub proof fn law_users_are_changed_by_statements(
    user_id: i64,
    package: Seq<char>,
    name: UserLimitName,
    value: Option<i64>,
    now: i64,
)
    ensures
        statement(WriteView::InsertUser { user_id, package, now })
            == "INSERT INTO users (telegram_id, enabled, package, created_at, updated_at) VALUES (?1, 1, ?2, ?3, ?3)"@,
        statement(WriteView::InsertUserIfAbsent { user_id, package, now })
            == "INSERT OR IGNORE INTO users (telegram_id, enabled, package, created_at, updated_at) VALUES (?1, 1, ?2, ?3, ?3)"@,
        statement(WriteView::SetEnabled { user_id, enabled: true, now })
            == "UPDATE users SET enabled = 1, updated_at = ?2 WHERE telegram_id = ?1"@,
        statement(WriteView::SetEnabled { user_id, enabled: false, now })
            == "UPDATE users SET enabled = 0, updated_at = ?2 WHERE telegram_id = ?1"@,
        statement(WriteView::SetPackage { user_id, package, now })
            == "UPDATE users SET package = ?2, updated_at = ?3 WHERE telegram_id = ?1"@,
        ({
            let set = |name: UserLimitName|
                statement(WriteView::SetLimit { user_id, name, value, now });
            let rest = " = ?2, updated_at = ?3 WHERE telegram_id = ?1"@;
            &&& set(UserLimitName::MaxActiveJobs) == "UPDATE users SET "@ + "max_active_jobs"@
                + rest
            &&& set(UserLimitName::MaxQueuedJobs) == "UPDATE users SET "@ + "max_queued_jobs"@
                + rest
            &&& set(UserLimitName::DailyJobLimit) == "UPDATE users SET "@ + "daily_job_limit"@
                + rest
            &&& set(UserLimitName::MaxUploadSizeMb) == "UPDATE users SET "@
                + "max_upload_size_mb"@ + rest
        }),
{
}

/// The statements that count outcomes: each in its own column.
pub proof fn law_outcomes_are_counted_by_statements(user_id: i64, now: i64)
    ensures
        ({
            let count = |outcome: DownloadStatOutcome|
                statement(WriteView::AddOutcome { user_id, outcome, now });
            let counts = |column: Seq<char>|
                "INSERT INTO user_stats (telegram_id, "@ + column
                    + ", updated_at) VALUES (?1, 1, ?2) ON CONFLICT (telegram_id) DO UPDATE SET "@
                    + column + " = "@ + column + " + 1, updated_at = excluded.updated_at"@;
            &&& count(DownloadStatOutcome::Completed) == counts("completed_jobs"@)
            &&& count(DownloadStatOutcome::Failed) == counts("failed_jobs"@)
            &&& count(DownloadStatOutcome::Cancelled) == counts("cancelled_jobs"@)
        }),
{
}

} // verus!
