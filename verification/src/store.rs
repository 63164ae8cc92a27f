//! The application database: what its rows mean, what is written to it, and what
//! that does to the users, their usage and their statistics.

use vstd::prelude::*;

use crate::ids::{insert_all, is_ordered};
use crate::number::{signed_decimal, write_i64};
use crate::policy::{
    PackageName, UserLimitName, UserLimitOverrides, UserLimitValue, limit_column, no_overrides,
    package_in,
};
use crate::text::{ascii_lowered, push_text, same_text, texts};

verus! {

pub const SCHEMA_VERSION: i64 = 2;

/// The key under which the database remembers that the users of the
/// configuration have been imported.
pub const BOOTSTRAP_IMPORT_KEY: &'static str = "bootstrap_users_imported_v1";

pub const SCHEMA_V1_SQL: &'static str = "
    CREATE TABLE app_meta (
        key TEXT PRIMARY KEY,
        value TEXT NOT NULL
    );
    CREATE TABLE users (
        telegram_id INTEGER PRIMARY KEY CHECK (telegram_id > 0),
        enabled INTEGER NOT NULL DEFAULT 1 CHECK (enabled IN (0, 1)),
        tier TEXT NOT NULL DEFAULT 'free' CHECK (tier IN ('free', 'paid')),
        max_active_jobs INTEGER CHECK (
            max_active_jobs IS NULL OR max_active_jobs > 0
        ),
        max_queued_jobs INTEGER CHECK (
            max_queued_jobs IS NULL OR max_queued_jobs > 0
        ),
        daily_job_limit INTEGER CHECK (
            daily_job_limit IS NULL OR daily_job_limit > 0
        ),
        max_upload_size_mb INTEGER CHECK (
            max_upload_size_mb IS NULL OR max_upload_size_mb > 0
        ),
        created_at INTEGER NOT NULL,
        updated_at INTEGER NOT NULL
    );
    CREATE TABLE user_daily_usage (
        telegram_id INTEGER NOT NULL
            REFERENCES users(telegram_id) ON DELETE CASCADE,
        utc_day INTEGER NOT NULL,
        accepted_jobs INTEGER NOT NULL DEFAULT 0
            CHECK (accepted_jobs >= 0),
        PRIMARY KEY (telegram_id, utc_day)
    );";

pub const MIGRATE_V1_TO_V2_SQL: &'static str = "
    CREATE TABLE users_v2 (
        telegram_id INTEGER PRIMARY KEY CHECK (telegram_id > 0),
        enabled INTEGER NOT NULL DEFAULT 1 CHECK (enabled IN (0, 1)),
        package TEXT NOT NULL DEFAULT 'free'
            CHECK (length(package) BETWEEN 1 AND 32),
        max_active_jobs INTEGER CHECK (
            max_active_jobs IS NULL OR max_active_jobs > 0
        ),
        max_queued_jobs INTEGER CHECK (
            max_queued_jobs IS NULL OR max_queued_jobs > 0
        ),
        daily_job_limit INTEGER CHECK (
            daily_job_limit IS NULL OR daily_job_limit > 0
        ),
        max_upload_size_mb INTEGER CHECK (
            max_upload_size_mb IS NULL OR max_upload_size_mb > 0
        ),
        created_at INTEGER NOT NULL,
        updated_at INTEGER NOT NULL
    );
    INSERT INTO users_v2 (
        telegram_id, enabled, package, max_active_jobs, max_queued_jobs,
        daily_job_limit, max_upload_size_mb, created_at, updated_at
    )
    SELECT
        telegram_id, enabled, tier, max_active_jobs, max_queued_jobs,
        daily_job_limit, max_upload_size_mb, created_at, updated_at
    FROM users;

    CREATE TABLE user_daily_usage_v2 (
        telegram_id INTEGER NOT NULL
            REFERENCES users_v2(telegram_id) ON DELETE CASCADE,
        utc_day INTEGER NOT NULL,
        accepted_jobs INTEGER NOT NULL DEFAULT 0
            CHECK (accepted_jobs >= 0),
        PRIMARY KEY (telegram_id, utc_day)
    );
    INSERT INTO user_daily_usage_v2 (telegram_id, utc_day, accepted_jobs)
    SELECT telegram_id, utc_day, accepted_jobs
    FROM user_daily_usage;

    DROP TABLE user_daily_usage;
    DROP TABLE users;
    ALTER TABLE users_v2 RENAME TO users;
    ALTER TABLE user_daily_usage_v2 RENAME TO user_daily_usage;

    CREATE TABLE user_stats (
        telegram_id INTEGER PRIMARY KEY
            REFERENCES users(telegram_id) ON DELETE CASCADE,
        accepted_jobs INTEGER NOT NULL DEFAULT 0 CHECK (accepted_jobs >= 0),
        completed_jobs INTEGER NOT NULL DEFAULT 0 CHECK (completed_jobs >= 0),
        failed_jobs INTEGER NOT NULL DEFAULT 0 CHECK (failed_jobs >= 0),
        cancelled_jobs INTEGER NOT NULL DEFAULT 0 CHECK (cancelled_jobs >= 0),
        interrupted_jobs INTEGER NOT NULL DEFAULT 0 CHECK (interrupted_jobs >= 0),
        updated_at INTEGER NOT NULL
    );";

/// Carries accepted jobs of the first version over into the statistics, as
/// interrupted ones: how they ended is not known.
pub const CARRY_USAGE_OVER_SQL: &'static str = "INSERT INTO user_stats (
        telegram_id, accepted_jobs, interrupted_jobs, updated_at
     )
     SELECT
        telegram_id, SUM(accepted_jobs), SUM(accepted_jobs), ?1
     FROM user_daily_usage
     GROUP BY telegram_id
     HAVING SUM(accepted_jobs) > 0";

// ---------------------------------------------------------------------------
// Errors
// ---------------------------------------------------------------------------

/// What can be wrong with a request to the database, or with what it holds.
#[derive(Clone, Copy, Debug, PartialEq, Eq, Structural)]
pub enum StoreError {
    InvalidUserId,
    LimitTooLarge,
    InvalidEnabled,
    InvalidPackage,
    InvalidField(StoreField),
    NewerSchema(i64),
    NoMigration(i64),
    ClockOutOfRange,
}

/// The numbers that a row holds.
#[derive(Clone, Copy, Debug, PartialEq, Eq, Structural)]
pub enum StoreField {
    Limit(UserLimitName),
    AcceptedJobs,
    CompletedJobs,
    FailedJobs,
    CancelledJobs,
    InterruptedJobs,
    AcceptedToday,
    Users,
    EnabledUsers,
}

/// What a number is called.
pub open spec fn field_name(field: StoreField) -> Seq<char> {
    match field {
        StoreField::Limit(name) => limit_column(name),
        StoreField::AcceptedJobs => "accepted_jobs"@,
        StoreField::CompletedJobs => "completed_jobs"@,
        StoreField::FailedJobs => "failed_jobs"@,
        StoreField::CancelledJobs => "cancelled_jobs"@,
        StoreField::InterruptedJobs => "interrupted_jobs"@,
        StoreField::AcceptedToday => "accepted_today"@,
        StoreField::Users => "users"@,
        StoreField::EnabledUsers => "enabled_users"@,
    }
}

impl StoreField {
    pub fn as_str(self) -> (result: &'static str)
        ensures
            result@ == field_name(self),
    {
        match self {
            StoreField::Limit(name) => name.as_str(),
            StoreField::AcceptedJobs => "accepted_jobs",
            StoreField::CompletedJobs => "completed_jobs",
            StoreField::FailedJobs => "failed_jobs",
            StoreField::CancelledJobs => "cancelled_jobs",
            StoreField::InterruptedJobs => "interrupted_jobs",
            StoreField::AcceptedToday => "accepted_today",
            StoreField::Users => "users",
            StoreField::EnabledUsers => "enabled_users",
        }
    }
}

impl StoreError {
    /// What the error says.
    pub open spec fn says(self) -> Seq<char> {
        match self {
            StoreError::InvalidUserId => "user ID must be positive"@,
            StoreError::LimitTooLarge => "limit is too large to store"@,
            StoreError::InvalidEnabled => "database contains an invalid enabled value"@,
            StoreError::InvalidPackage => "database contains an invalid package name"@,
            StoreError::InvalidField(field) => "database contains an invalid "@ + field_name(field),
            StoreError::NewerSchema(version) => "database schema version "@ + signed_decimal(
                version as int,
            ) + " is newer than supported version "@ + signed_decimal(SCHEMA_VERSION as int),
            StoreError::NoMigration(version) => "no migration path from database schema version "@
                + signed_decimal(version as int),
            StoreError::ClockOutOfRange => "system clock is out of range"@,
        }
    }

    pub fn message(&self) -> (result: String)
        ensures
            result@ == self.says(),
    {
        match self {
            StoreError::InvalidUserId => "user ID must be positive".to_owned(),
            StoreError::LimitTooLarge => "limit is too large to store".to_owned(),
            StoreError::InvalidEnabled => "database contains an invalid enabled value".to_owned(),
            StoreError::InvalidPackage => "database contains an invalid package name".to_owned(),
            StoreError::InvalidField(field) => "database contains an invalid ".to_owned().concat(
                field.as_str(),
            ),
            StoreError::NewerSchema(version) => "database schema version ".to_owned().concat(
                write_i64(*version).as_str(),
            ).concat(" is newer than supported version ").concat(
                write_i64(SCHEMA_VERSION).as_str(),
            ),
            StoreError::NoMigration(
                version,
            ) => "no migration path from database schema version ".to_owned().concat(
                write_i64(*version).as_str(),
            ),
            StoreError::ClockOutOfRange => "system clock is out of range".to_owned(),
        }
    }
}

pub fn validate_user_id(user_id: i64) -> (result: Result<(), StoreError>)
    ensures
        user_id > 0 ==> result is Ok,
        user_id <= 0 ==> result == Err::<(), StoreError>(StoreError::InvalidUserId),
{
    if user_id <= 0 {
        Err(StoreError::InvalidUserId)
    } else {
        Ok(())
    }
}

// ---------------------------------------------------------------------------
// Rows
// ---------------------------------------------------------------------------

/// A user as the database knows them.
#[derive(Debug, PartialEq, Eq)]
pub struct UserRecord {
    pub telegram_id: i64,
    pub enabled: bool,
    pub package: PackageName,
    pub limits: UserLimitOverrides,
}

pub ghost struct UserView {
    pub telegram_id: i64,
    pub enabled: bool,
    pub package: Seq<char>,
    pub limits: UserLimitOverrides,
}

impl View for UserRecord {
    type V = UserView;

    open spec fn view(&self) -> UserView {
        UserView {
            telegram_id: self.telegram_id,
            enabled: self.enabled,
            package: self.package@,
            limits: self.limits,
        }
    }
}

impl Clone for UserRecord {
    fn clone(&self) -> (result: UserRecord)
        ensures
            result@ == self@,
    {
        UserRecord {
            telegram_id: self.telegram_id,
            enabled: self.enabled,
            package: self.package.clone(),
            limits: self.limits,
        }
    }
}

/// What is known of the downloads of a user, or of all users.
#[derive(Clone, Copy, Debug, PartialEq, Eq, Structural)]
pub struct DownloadStats {
    pub accepted_jobs: u64,
    pub completed_jobs: u64,
    pub failed_jobs: u64,
    pub cancelled_jobs: u64,
    pub interrupted_jobs: u64,
    pub accepted_today: u64,
}

/// The statistics of someone who never downloaded anything.
pub open spec fn no_downloads() -> DownloadStats {
    DownloadStats {
        accepted_jobs: 0,
        completed_jobs: 0,
        failed_jobs: 0,
        cancelled_jobs: 0,
        interrupted_jobs: 0,
        accepted_today: 0,
    }
}

impl Default for DownloadStats {
    fn default() -> (result: DownloadStats)
        ensures
            result == no_downloads(),
    {
        DownloadStats {
            accepted_jobs: 0,
            completed_jobs: 0,
            failed_jobs: 0,
            cancelled_jobs: 0,
            interrupted_jobs: 0,
            accepted_today: 0,
        }
    }
}

/// How many accepted jobs have not been heard of since.
pub open spec fn unresolved(stats: DownloadStats) -> nat {
    let resolved = stats.completed_jobs + stats.failed_jobs + stats.cancelled_jobs
        + stats.interrupted_jobs;
    if stats.accepted_jobs >= resolved {
        (stats.accepted_jobs - resolved) as nat
    } else {
        0
    }
}

impl DownloadStats {
    pub fn unresolved_jobs(self) -> (result: u64)
        ensures
            result == unresolved(self),
    {
        let resolved: u128 = self.completed_jobs as u128 + self.failed_jobs as u128
            + self.cancelled_jobs as u128 + self.interrupted_jobs as u128;
        if self.accepted_jobs as u128 >= resolved {
            (self.accepted_jobs as u128 - resolved) as u64
        } else {
            0
        }
    }
}

#[derive(Clone, Copy, Debug, PartialEq, Eq, Structural)]
pub struct GlobalStats {
    pub users: u64,
    pub enabled_users: u64,
    pub downloads: DownloadStats,
}

impl Default for GlobalStats {
    fn default() -> (result: GlobalStats)
        ensures
            result.users == 0,
            result.enabled_users == 0,
            result.downloads == no_downloads(),
    {
        GlobalStats { users: 0, enabled_users: 0, downloads: DownloadStats::default() }
    }
}

/// How a download ended, as far as the statistics care.
#[derive(Clone, Copy, Debug, PartialEq, Eq, Structural)]
pub enum DownloadStatOutcome {
    Completed,
    Failed,
    Cancelled,
}

/// The column that counts an outcome.
pub open spec fn outcome_column(outcome: DownloadStatOutcome) -> Seq<char> {
    match outcome {
        DownloadStatOutcome::Completed => "completed_jobs"@,
        DownloadStatOutcome::Failed => "failed_jobs"@,
        DownloadStatOutcome::Cancelled => "cancelled_jobs"@,
    }
}

impl DownloadStatOutcome {
    pub fn column(self) -> (result: &'static str)
        ensures
            result@ == outcome_column(self),
    {
        match self {
            DownloadStatOutcome::Completed => "completed_jobs",
            DownloadStatOutcome::Failed => "failed_jobs",
            DownloadStatOutcome::Cancelled => "cancelled_jobs",
        }
    }
}

#[derive(Clone, Copy, Debug, PartialEq, Eq, Structural)]
pub enum AddUserOutcome {
    Added,
    Reenabled,
    AlreadyEnabled,
}

#[derive(Clone, Copy, Debug, PartialEq, Eq, Structural)]
pub enum RemoveUserOutcome {
    Disabled,
    AlreadyDisabled,
    NotFound,
}

/// One job of a user on a day, counted in advance.
#[derive(Clone, Copy, Debug, PartialEq, Eq, Structural)]
pub struct UsageReservation {
    pub user_id: i64,
    pub utc_day: i64,
}

#[derive(Clone, Copy, Debug, PartialEq, Eq, Structural)]
pub enum ReserveUsageOutcome {
    Reserved(UsageReservation),
    LimitReached,
}

pub fn nonnegative_u64(value: i64, field: StoreField) -> (result: Result<u64, StoreError>)
    ensures
        value >= 0 ==> result == Ok::<u64, StoreError>(value as u64),
        value < 0 ==> result == Err::<u64, StoreError>(StoreError::InvalidField(field)),
{
    if value < 0 {
        Err(StoreError::InvalidField(field))
    } else {
        Ok(value as u64)
    }
}

/// A stored limit that fits a `usize`, if it is one: none, or a positive number.
pub open spec fn stored_usize(value: Option<i64>, name: UserLimitName) -> Result<
    Option<usize>,
    StoreError,
> {
    match value {
        None => Ok(None),
        Some(number) => if 0 < number <= usize::MAX {
            Ok(Some(number as usize))
        } else {
            Err(StoreError::InvalidField(StoreField::Limit(name)))
        },
    }
}

/// A stored limit that fits a `u64`, if it is one: none, or a positive number.
pub open spec fn stored_u64(value: Option<i64>, name: UserLimitName) -> Result<
    Option<u64>,
    StoreError,
> {
    match value {
        None => Ok(None),
        Some(number) => if 0 < number {
            Ok(Some(number as u64))
        } else {
            Err(StoreError::InvalidField(StoreField::Limit(name)))
        },
    }
}

pub fn optional_usize(value: Option<i64>, name: UserLimitName) -> (result: Result<
    Option<usize>,
    StoreError,
>)
    ensures
        result == stored_usize(value, name),
{
    match value {
        None => Ok(None),
        Some(number) => if number > 0 && number as u128 <= usize::MAX as u128 {
            Ok(Some(number as usize))
        } else {
            Err(StoreError::InvalidField(StoreField::Limit(name)))
        },
    }
}

pub fn optional_u64(value: Option<i64>, name: UserLimitName) -> (result: Result<
    Option<u64>,
    StoreError,
>)
    ensures
        result == stored_u64(value, name),
{
    match value {
        None => Ok(None),
        Some(number) => if number > 0 {
            Ok(Some(number as u64))
        } else {
            Err(StoreError::InvalidField(StoreField::Limit(name)))
        },
    }
}

/// The columns of a user, as the database gives them.
#[derive(Clone, Copy, Debug)]
pub struct UserColumns<'a> {
    pub telegram_id: i64,
    pub enabled: i64,
    pub package: &'a str,
    pub max_active_jobs: Option<i64>,
    pub max_queued_jobs: Option<i64>,
    pub daily_job_limit: Option<i64>,
    pub max_upload_size_mb: Option<i64>,
}

/// The overrides in a row, or the first of them that makes no sense.
pub open spec fn overrides_in(
    active: Option<i64>,
    queued: Option<i64>,
    daily: Option<i64>,
    upload: Option<i64>,
) -> Result<UserLimitOverrides, StoreError> {
    match stored_usize(active, UserLimitName::MaxActiveJobs) {
        Err(error) => Err(error),
        Ok(max_active_jobs) => match stored_usize(queued, UserLimitName::MaxQueuedJobs) {
            Err(error) => Err(error),
            Ok(max_queued_jobs) => match stored_u64(daily, UserLimitName::DailyJobLimit) {
                Err(error) => Err(error),
                Ok(daily_job_limit) => match stored_u64(upload, UserLimitName::MaxUploadSizeMb) {
                    Err(error) => Err(error),
                    Ok(max_upload_size_mb) => Ok(
                        UserLimitOverrides {
                            max_active_jobs,
                            max_queued_jobs,
                            daily_job_limit,
                            max_upload_size_mb,
                        },
                    ),
                },
            },
        },
    }
}

/// The user in a row, or what is wrong with it.
pub open spec fn user_in(row: UserColumns) -> Result<UserView, StoreError> {
    if row.enabled != 0 && row.enabled != 1 {
        Err(StoreError::InvalidEnabled)
    } else {
        match package_in(row.package@) {
            None => Err(StoreError::InvalidPackage),
            Some(package) => match overrides_in(
                row.max_active_jobs,
                row.max_queued_jobs,
                row.daily_job_limit,
                row.max_upload_size_mb,
            ) {
                Err(error) => Err(error),
                Ok(limits) => Ok(
                    UserView {
                        telegram_id: row.telegram_id,
                        enabled: row.enabled == 1,
                        package,
                        limits,
                    },
                ),
            },
        }
    }
}

/// Reads a user off a row.
pub fn user_from_row(row: UserColumns) -> (result: Result<UserRecord, StoreError>)
    ensures
        match (result, user_in(row)) {
            (Ok(user), Ok(expected)) => user@ == expected,
            (Err(error), Err(expected)) => error == expected,
            _ => false,
        },
{
    if row.enabled != 0 && row.enabled != 1 {
        return Err(StoreError::InvalidEnabled);
    }
    let package = match PackageName::require(row.package) {
        Ok(package) => package,
        Err(_) => {
            return Err(StoreError::InvalidPackage);
        },
    };
    let max_active_jobs = match optional_usize(row.max_active_jobs, UserLimitName::MaxActiveJobs) {
        Ok(limit) => limit,
        Err(error) => {
            return Err(error);
        },
    };
    let max_queued_jobs = match optional_usize(row.max_queued_jobs, UserLimitName::MaxQueuedJobs) {
        Ok(limit) => limit,
        Err(error) => {
            return Err(error);
        },
    };
    let daily_job_limit = match optional_u64(row.daily_job_limit, UserLimitName::DailyJobLimit) {
        Ok(limit) => limit,
        Err(error) => {
            return Err(error);
        },
    };
    let max_upload_size_mb = match optional_u64(
        row.max_upload_size_mb,
        UserLimitName::MaxUploadSizeMb,
    ) {
        Ok(limit) => limit,
        Err(error) => {
            return Err(error);
        },
    };
    Ok(
        UserRecord {
            telegram_id: row.telegram_id,
            enabled: row.enabled == 1,
            package,
            limits: UserLimitOverrides {
                max_active_jobs,
                max_queued_jobs,
                daily_job_limit,
                max_upload_size_mb,
            },
        },
    )
}

/// The columns of statistics, as the database gives them.
#[derive(Clone, Copy, Debug)]
pub struct StatsColumns {
    pub accepted_jobs: i64,
    pub completed_jobs: i64,
    pub failed_jobs: i64,
    pub cancelled_jobs: i64,
    pub interrupted_jobs: i64,
    pub accepted_today: i64,
}

/// The statistics in a row, or the first number that makes no sense.
pub open spec fn stats_in(row: StatsColumns) -> Result<DownloadStats, StoreError> {
    if row.accepted_jobs < 0 {
        Err(StoreError::InvalidField(StoreField::AcceptedJobs))
    } else if row.completed_jobs < 0 {
        Err(StoreError::InvalidField(StoreField::CompletedJobs))
    } else if row.failed_jobs < 0 {
        Err(StoreError::InvalidField(StoreField::FailedJobs))
    } else if row.cancelled_jobs < 0 {
        Err(StoreError::InvalidField(StoreField::CancelledJobs))
    } else if row.interrupted_jobs < 0 {
        Err(StoreError::InvalidField(StoreField::InterruptedJobs))
    } else if row.accepted_today < 0 {
        Err(StoreError::InvalidField(StoreField::AcceptedToday))
    } else {
        Ok(
            DownloadStats {
                accepted_jobs: row.accepted_jobs as u64,
                completed_jobs: row.completed_jobs as u64,
                failed_jobs: row.failed_jobs as u64,
                cancelled_jobs: row.cancelled_jobs as u64,
                interrupted_jobs: row.interrupted_jobs as u64,
                accepted_today: row.accepted_today as u64,
            },
        )
    }
}

/// Reads statistics off a row.
pub fn stats_from_row(row: StatsColumns) -> (result: Result<DownloadStats, StoreError>)
    ensures
        result == stats_in(row),
{
    let accepted_jobs: u64 = match nonnegative_u64(row.accepted_jobs, StoreField::AcceptedJobs) {
        Ok(value) => value,
        Err(error) => {
            return Err(error);
        },
    };
    let completed_jobs: u64 = match nonnegative_u64(row.completed_jobs, StoreField::CompletedJobs) {
        Ok(value) => value,
        Err(error) => {
            return Err(error);
        },
    };
    let failed_jobs: u64 = match nonnegative_u64(row.failed_jobs, StoreField::FailedJobs) {
        Ok(value) => value,
        Err(error) => {
            return Err(error);
        },
    };
    let cancelled_jobs: u64 = match nonnegative_u64(row.cancelled_jobs, StoreField::CancelledJobs) {
        Ok(value) => value,
        Err(error) => {
            return Err(error);
        },
    };
    let interrupted_jobs: u64 = match nonnegative_u64(
        row.interrupted_jobs,
        StoreField::InterruptedJobs,
    ) {
        Ok(value) => value,
        Err(error) => {
            return Err(error);
        },
    };
    let accepted_today: u64 = match nonnegative_u64(row.accepted_today, StoreField::AcceptedToday) {
        Ok(value) => value,
        Err(error) => {
            return Err(error);
        },
    };
    Ok(
        DownloadStats {
            accepted_jobs,
            completed_jobs,
            failed_jobs,
            cancelled_jobs,
            interrupted_jobs,
            accepted_today,
        },
    )
}

// ---------------------------------------------------------------------------
// Time and files
// ---------------------------------------------------------------------------

/// The time in whole seconds, as the database stores it.
pub fn unix_timestamp(seconds: u64) -> (result: Result<i64, StoreError>)
    ensures
        seconds <= i64::MAX ==> result == Ok::<i64, StoreError>(seconds as i64),
        seconds > i64::MAX ==> result == Err::<i64, StoreError>(StoreError::ClockOutOfRange),
{
    if seconds > i64::MAX as u64 {
        Err(StoreError::ClockOutOfRange)
    } else {
        Ok(seconds as i64)
    }
}

/// The day in UTC of a time since 1970.
pub fn current_utc_day(timestamp: i64) -> (result: i64)
    requires
        timestamp >= 0,
    ensures
        result == timestamp as int / 86_400,
{
    timestamp / 86_400
}

/// A file that the database keeps beside its own.
pub fn sidecar_path(path: &str, suffix: &str) -> (result: String)
    ensures
        result@ == path@ + suffix@,
{
    path.to_owned().concat(suffix)
}

/// The files that only their owner may read.
pub open spec fn private_files(path: Seq<char>) -> Seq<Seq<char>> {
    if path == ":memory:"@ {
        Seq::empty()
    } else {
        seq![
            path,
            path + "-journal"@,
            path + "-shm"@,
            path + "-tshm"@,
            path + "-wal"@,
        ]
    }
}

// ---------------------------------------------------------------------------
// Writes
// ---------------------------------------------------------------------------

/// A change to the database.
pub enum StoreWrite {
    /// Adds a user; fails if they are there.
    InsertUser { user_id: i64, package: PackageName, now: i64 },
    /// Adds a user, unless they are there.
    InsertUserIfAbsent { user_id: i64, package: PackageName, now: i64 },
    SetEnabled { user_id: i64, enabled: bool, now: i64 },
    SetPackage { user_id: i64, package: PackageName, now: i64 },
    SetLimit { user_id: i64, name: UserLimitName, value: Option<i64>, now: i64 },
    /// Counts one more job of the day.
    AddDailyUse { user_id: i64, utc_day: i64 },
    /// Counts one more accepted job.
    AddAccepted { user_id: i64, now: i64 },
    /// Counts one job of the day less, down to none.
    DropDailyUse { user_id: i64, utc_day: i64 },
    /// Counts one accepted job less, down to none.
    DropAccepted { user_id: i64, now: i64 },
    /// Counts one more job that ended like that.
    AddOutcome { user_id: i64, outcome: DownloadStatOutcome, now: i64 },
    /// Counts every job that has not been heard of as interrupted.
    Reconcile { now: i64 },
    /// Remembers that the users of the configuration have been imported.
    MarkImported,
}

pub ghost enum WriteView {
    InsertUser { user_id: i64, package: Seq<char>, now: i64 },
    InsertUserIfAbsent { user_id: i64, package: Seq<char>, now: i64 },
    SetEnabled { user_id: i64, enabled: bool, now: i64 },
    SetPackage { user_id: i64, package: Seq<char>, now: i64 },
    SetLimit { user_id: i64, name: UserLimitName, value: Option<i64>, now: i64 },
    AddDailyUse { user_id: i64, utc_day: i64 },
    AddAccepted { user_id: i64, now: i64 },
    DropDailyUse { user_id: i64, utc_day: i64 },
    DropAccepted { user_id: i64, now: i64 },
    AddOutcome { user_id: i64, outcome: DownloadStatOutcome, now: i64 },
    Reconcile { now: i64 },
    MarkImported,
}

impl View for StoreWrite {
    type V = WriteView;

    open spec fn view(&self) -> WriteView {
        match self {
            StoreWrite::InsertUser { user_id, package, now } => WriteView::InsertUser {
                user_id: *user_id,
                package: package@,
                now: *now,
            },
            StoreWrite::InsertUserIfAbsent {
                user_id,
                package,
                now,
            } => WriteView::InsertUserIfAbsent {
                user_id: *user_id,
                package: package@,
                now: *now,
            },
            StoreWrite::SetEnabled { user_id, enabled, now } => WriteView::SetEnabled {
                user_id: *user_id,
                enabled: *enabled,
                now: *now,
            },
            StoreWrite::SetPackage { user_id, package, now } => WriteView::SetPackage {
                user_id: *user_id,
                package: package@,
                now: *now,
            },
            StoreWrite::SetLimit { user_id, name, value, now } => WriteView::SetLimit {
                user_id: *user_id,
                name: *name,
                value: *value,
                now: *now,
            },
            StoreWrite::AddDailyUse { user_id, utc_day } => WriteView::AddDailyUse {
                user_id: *user_id,
                utc_day: *utc_day,
            },
            StoreWrite::AddAccepted { user_id, now } => WriteView::AddAccepted {
                user_id: *user_id,
                now: *now,
            },
            StoreWrite::DropDailyUse { user_id, utc_day } => WriteView::DropDailyUse {
                user_id: *user_id,
                utc_day: *utc_day,
            },
            StoreWrite::DropAccepted { user_id, now } => WriteView::DropAccepted {
                user_id: *user_id,
                now: *now,
            },
            StoreWrite::AddOutcome { user_id, outcome, now } => WriteView::AddOutcome {
                user_id: *user_id,
                outcome: *outcome,
                now: *now,
            },
            StoreWrite::Reconcile { now } => WriteView::Reconcile { now: *now },
            StoreWrite::MarkImported => WriteView::MarkImported,
        }
    }
}

/// What a list of changes holds.
pub open spec fn writes_seen(writes: Seq<StoreWrite>) -> Seq<WriteView> {
    writes.map_values(|write: StoreWrite| write@)
}

/// The statement that makes a change. Its parameters are those of the change,
/// in order.
pub open spec fn statement(write: WriteView) -> Seq<char> {
    match write {
        WriteView::InsertUser { .. } => INSERT_USER_SQL@,
        WriteView::InsertUserIfAbsent { .. } => INSERT_USER_IF_ABSENT_SQL@,
        WriteView::SetEnabled { enabled, .. } => if enabled {
            "UPDATE users SET enabled = 1, updated_at = ?2 WHERE telegram_id = ?1"@
        } else {
            "UPDATE users SET enabled = 0, updated_at = ?2 WHERE telegram_id = ?1"@
        },
        WriteView::SetPackage { .. } =>
            "UPDATE users SET package = ?2, updated_at = ?3 WHERE telegram_id = ?1"@,
        WriteView::SetLimit { name, .. } => "UPDATE users SET "@ + limit_column(name)
            + " = ?2, updated_at = ?3 WHERE telegram_id = ?1"@,
        WriteView::AddDailyUse { .. } => ADD_DAILY_USE_SQL@,
        WriteView::AddAccepted { .. } => ADD_ACCEPTED_SQL@,
        WriteView::DropDailyUse { .. } => DROP_DAILY_USE_SQL@,
        WriteView::DropAccepted { .. } => DROP_ACCEPTED_SQL@,
        WriteView::AddOutcome { outcome, .. } => {
            let column = outcome_column(outcome);
            "INSERT INTO user_stats (telegram_id, "@ + column
                + ", updated_at) VALUES (?1, 1, ?2) ON CONFLICT (telegram_id) DO UPDATE SET "@
                + column + " = "@ + column + " + 1, updated_at = excluded.updated_at"@
        },
        WriteView::Reconcile { .. } => RECONCILE_SQL@,
        WriteView::MarkImported => "INSERT INTO app_meta (key, value) VALUES (?1, 'true')"@,
    }
}

pub const INSERT_USER_SQL: &'static str =
    "INSERT INTO users (telegram_id, enabled, package, created_at, updated_at) VALUES (?1, 1, ?2, ?3, ?3)";

pub const INSERT_USER_IF_ABSENT_SQL: &'static str =
    "INSERT OR IGNORE INTO users (telegram_id, enabled, package, created_at, updated_at) VALUES (?1, 1, ?2, ?3, ?3)";

pub const ADD_DAILY_USE_SQL: &'static str =
    "INSERT INTO user_daily_usage (telegram_id, utc_day, accepted_jobs)
     VALUES (?1, ?2, 1)
     ON CONFLICT (telegram_id, utc_day)
     DO UPDATE SET accepted_jobs = accepted_jobs + 1";

pub const ADD_ACCEPTED_SQL: &'static str =
    "INSERT INTO user_stats (telegram_id, accepted_jobs, updated_at)
     VALUES (?1, 1, ?2)
     ON CONFLICT (telegram_id)
     DO UPDATE SET accepted_jobs = accepted_jobs + 1, updated_at = excluded.updated_at";

pub const DROP_DAILY_USE_SQL: &'static str =
    "UPDATE user_daily_usage
     SET accepted_jobs = CASE WHEN accepted_jobs > 0 THEN accepted_jobs - 1 ELSE 0 END
     WHERE telegram_id = ?1 AND utc_day = ?2";

pub const DROP_ACCEPTED_SQL: &'static str =
    "UPDATE user_stats
     SET accepted_jobs = CASE WHEN accepted_jobs > 0 THEN accepted_jobs - 1 ELSE 0 END,
         updated_at = ?2
     WHERE telegram_id = ?1";

pub const RECONCILE_SQL: &'static str =
    "UPDATE user_stats
     SET interrupted_jobs = interrupted_jobs + (
            accepted_jobs - completed_jobs - failed_jobs - cancelled_jobs - interrupted_jobs
         ),
         updated_at = ?1
     WHERE accepted_jobs > (
            completed_jobs + failed_jobs + cancelled_jobs + interrupted_jobs
         )";

/// Reads one user, by ID.
pub const READ_USER_SQL: &'static str =
    "SELECT telegram_id, enabled, package, max_active_jobs,
            max_queued_jobs, daily_job_limit, max_upload_size_mb
     FROM users
     WHERE telegram_id = ?1";

/// Reads every user, in the order of their IDs.
pub const LIST_USERS_SQL: &'static str =
    "SELECT telegram_id, enabled, package, max_active_jobs,
            max_queued_jobs, daily_job_limit, max_upload_size_mb
     FROM users
     ORDER BY telegram_id";

/// Reads how many jobs of a user were accepted on a day.
pub const DAILY_USE_SQL: &'static str =
    "SELECT accepted_jobs FROM user_daily_usage
     WHERE telegram_id = ?1 AND utc_day = ?2";

/// Reads the statistics of a user on a day.
pub const USER_STATS_SQL: &'static str =
    "SELECT
        COALESCE((SELECT accepted_jobs FROM user_stats WHERE telegram_id = ?1), 0),
        COALESCE((SELECT completed_jobs FROM user_stats WHERE telegram_id = ?1), 0),
        COALESCE((SELECT failed_jobs FROM user_stats WHERE telegram_id = ?1), 0),
        COALESCE((SELECT cancelled_jobs FROM user_stats WHERE telegram_id = ?1), 0),
        COALESCE((SELECT interrupted_jobs FROM user_stats WHERE telegram_id = ?1), 0),
        COALESCE((SELECT accepted_jobs FROM user_daily_usage
                  WHERE telegram_id = ?1 AND utc_day = ?2), 0)";

/// Reads the statistics of the application on a day.
pub const GLOBAL_STATS_SQL: &'static str =
    "SELECT
        (SELECT COUNT(*) FROM users),
        (SELECT COUNT(*) FROM users WHERE enabled = 1),
        COALESCE((SELECT SUM(accepted_jobs) FROM user_stats), 0),
        COALESCE((SELECT SUM(completed_jobs) FROM user_stats), 0),
        COALESCE((SELECT SUM(failed_jobs) FROM user_stats), 0),
        COALESCE((SELECT SUM(cancelled_jobs) FROM user_stats), 0),
        COALESCE((SELECT SUM(interrupted_jobs) FROM user_stats), 0),
        COALESCE((SELECT SUM(accepted_jobs) FROM user_daily_usage WHERE utc_day = ?1), 0)";

impl StoreWrite {
    /// The statement that makes the change.
    pub fn sql(&self) -> (result: String)
        ensures
            result@ == statement(self@),
    {
        match self {
            StoreWrite::InsertUser { .. } => INSERT_USER_SQL.to_owned(),
            StoreWrite::InsertUserIfAbsent { .. } => INSERT_USER_IF_ABSENT_SQL.to_owned(),
            StoreWrite::SetEnabled { user_id: _, enabled, now: _ } => if *enabled {
                "UPDATE users SET enabled = 1, updated_at = ?2 WHERE telegram_id = ?1".to_owned()
            } else {
                "UPDATE users SET enabled = 0, updated_at = ?2 WHERE telegram_id = ?1".to_owned()
            },
            StoreWrite::SetPackage { .. } =>
                "UPDATE users SET package = ?2, updated_at = ?3 WHERE telegram_id = ?1".to_owned(),
            StoreWrite::SetLimit {
                user_id: _,
                name,
                value: _,
                now: _,
            } => "UPDATE users SET ".to_owned().concat(name.as_str()).concat(
                " = ?2, updated_at = ?3 WHERE telegram_id = ?1",
            ),
            StoreWrite::AddDailyUse { .. } => ADD_DAILY_USE_SQL.to_owned(),
            StoreWrite::AddAccepted { .. } => ADD_ACCEPTED_SQL.to_owned(),
            StoreWrite::DropDailyUse { .. } => DROP_DAILY_USE_SQL.to_owned(),
            StoreWrite::DropAccepted { .. } => DROP_ACCEPTED_SQL.to_owned(),
            StoreWrite::AddOutcome { user_id: _, outcome, now: _ } => {
                let column = outcome.column();
                "INSERT INTO user_stats (telegram_id, ".to_owned().concat(column).concat(
                    ", updated_at) VALUES (?1, 1, ?2) ON CONFLICT (telegram_id) DO UPDATE SET ",
                ).concat(column).concat(" = ").concat(column).concat(
                    " + 1, updated_at = excluded.updated_at",
                )
            },
            StoreWrite::Reconcile { .. } => RECONCILE_SQL.to_owned(),
            StoreWrite::MarkImported =>
                "INSERT INTO app_meta (key, value) VALUES (?1, 'true')".to_owned(),
        }
    }
}

// ---------------------------------------------------------------------------
// What a change does
// ---------------------------------------------------------------------------

/// A user in the database.
pub ghost struct StoredUser {
    pub enabled: bool,
    pub package: Seq<char>,
    pub limits: UserLimitOverrides,
}

/// The statistics of a user in the database.
pub ghost struct StoredStats {
    pub accepted: nat,
    pub completed: nat,
    pub failed: nat,
    pub cancelled: nat,
    pub interrupted: nat,
}

/// What the database holds.
#[verifier::ext_equal]
pub ghost struct Tables {
    pub users: Map<i64, StoredUser>,
    /// How many jobs were accepted, by user and day.
    pub daily: Map<(i64, i64), nat>,
    pub stats: Map<i64, StoredStats>,
    pub imported: bool,
}

pub open spec fn no_stats() -> StoredStats {
    StoredStats { accepted: 0, completed: 0, failed: 0, cancelled: 0, interrupted: 0 }
}

/// The statistics of a user; none count as zero.
pub open spec fn stats_of(tables: Tables, user: i64) -> StoredStats {
    if tables.stats.contains_key(user) {
        tables.stats[user]
    } else {
        no_stats()
    }
}

/// How many jobs of a user were accepted on a day.
pub open spec fn daily_count(tables: Tables, user: i64, day: i64) -> nat {
    if tables.daily.contains_key((user, day)) {
        tables.daily[(user, day)]
    } else {
        0
    }
}

/// How many jobs of a user are known to have ended.
pub open spec fn resolved_jobs(stats: StoredStats) -> nat {
    stats.completed + stats.failed + stats.cancelled + stats.interrupted
}

/// Statistics in which every job is accounted for.
pub open spec fn reconciled(stats: StoredStats) -> StoredStats {
    if stats.accepted > resolved_jobs(stats) {
        StoredStats {
            interrupted: (stats.interrupted + stats.accepted - resolved_jobs(stats)) as nat,
            ..stats
        }
    } else {
        stats
    }
}

pub open spec fn one_less(count: nat) -> nat {
    if count > 0 {
        (count - 1) as nat
    } else {
        0
    }
}

/// Statistics with one more job that ended like that.
pub open spec fn with_outcome(stats: StoredStats, outcome: DownloadStatOutcome) -> StoredStats {
    match outcome {
        DownloadStatOutcome::Completed => StoredStats { completed: stats.completed + 1, ..stats },
        DownloadStatOutcome::Failed => StoredStats { failed: stats.failed + 1, ..stats },
        DownloadStatOutcome::Cancelled => StoredStats { cancelled: stats.cancelled + 1, ..stats },
    }
}

/// A user with a limit set, or taken back.
pub open spec fn with_limit(user: StoredUser, name: UserLimitName, value: Option<i64>) -> StoredUser {
    let limits = match name {
        UserLimitName::MaxActiveJobs => UserLimitOverrides {
            max_active_jobs: match value {
                Some(value) => Some(value as usize),
                None => None,
            },
            ..user.limits
        },
        UserLimitName::MaxQueuedJobs => UserLimitOverrides {
            max_queued_jobs: match value {
                Some(value) => Some(value as usize),
                None => None,
            },
            ..user.limits
        },
        UserLimitName::DailyJobLimit => UserLimitOverrides {
            daily_job_limit: match value {
                Some(value) => Some(value as u64),
                None => None,
            },
            ..user.limits
        },
        UserLimitName::MaxUploadSizeMb => UserLimitOverrides {
            max_upload_size_mb: match value {
                Some(value) => Some(value as u64),
                None => None,
            },
            ..user.limits
        },
    };
    StoredUser { limits, ..user }
}

/// The users with one of them changed, if they are there.
pub open spec fn changed(tables: Tables, user: i64, to: StoredUser) -> Tables {
    if tables.users.contains_key(user) {
        Tables { users: tables.users.insert(user, to), ..tables }
    } else {
        tables
    }
}

/// A new user: enabled, with nothing but a package.
pub open spec fn new_user(package: Seq<char>) -> StoredUser {
    StoredUser { enabled: true, package, limits: no_overrides() }
}

/// What the database holds after a change.
pub open spec fn applied(tables: Tables, write: WriteView) -> Tables {
    match write {
        WriteView::InsertUser { user_id, package, .. } => Tables {
            users: tables.users.insert(user_id, new_user(package)),
            ..tables
        },
        WriteView::InsertUserIfAbsent { user_id, package, .. } => if tables.users.contains_key(
            user_id,
        ) {
            tables
        } else {
            Tables { users: tables.users.insert(user_id, new_user(package)), ..tables }
        },
        WriteView::SetEnabled { user_id, enabled, .. } => changed(
            tables,
            user_id,
            StoredUser { enabled, ..tables.users[user_id] },
        ),
        WriteView::SetPackage { user_id, package, .. } => changed(
            tables,
            user_id,
            StoredUser { package, ..tables.users[user_id] },
        ),
        WriteView::SetLimit { user_id, name, value, .. } => changed(
            tables,
            user_id,
            with_limit(tables.users[user_id], name, value),
        ),
        WriteView::AddDailyUse { user_id, utc_day } => Tables {
            daily: tables.daily.insert(
                (user_id, utc_day),
                daily_count(tables, user_id, utc_day) + 1,
            ),
            ..tables
        },
        WriteView::DropDailyUse { user_id, utc_day } => if tables.daily.contains_key(
            (user_id, utc_day),
        ) {
            Tables {
                daily: tables.daily.insert(
                    (user_id, utc_day),
                    one_less(tables.daily[(user_id, utc_day)]),
                ),
                ..tables
            }
        } else {
            tables
        },
        WriteView::AddAccepted { user_id, .. } => {
            let stats = stats_of(tables, user_id);
            Tables {
                stats: tables.stats.insert(
                    user_id,
                    StoredStats { accepted: stats.accepted + 1, ..stats },
                ),
                ..tables
            }
        },
        WriteView::DropAccepted { user_id, .. } => if tables.stats.contains_key(user_id) {
            let stats = tables.stats[user_id];
            Tables {
                stats: tables.stats.insert(
                    user_id,
                    StoredStats { accepted: one_less(stats.accepted), ..stats },
                ),
                ..tables
            }
        } else {
            tables
        },
        WriteView::AddOutcome { user_id, outcome, .. } => Tables {
            stats: tables.stats.insert(user_id, with_outcome(stats_of(tables, user_id), outcome)),
            ..tables
        },
        WriteView::Reconcile { .. } => Tables {
            stats: tables.stats.map_values(|stats: StoredStats| reconciled(stats)),
            ..tables
        },
        WriteView::MarkImported => Tables { imported: true, ..tables },
    }
}

/// What the database holds after changes, one after the other.
pub open spec fn applied_all(tables: Tables, writes: Seq<WriteView>) -> Tables
    decreases writes.len(),
{
    if writes.len() == 0 {
        tables
    } else {
        applied(applied_all(tables, writes.drop_last()), writes.last())
    }
}

/// The users some of whose jobs were never heard of again.
pub open spec fn unsettled(tables: Tables) -> Set<i64> {
    tables.stats.dom().filter(
        |id: i64| tables.stats[id].accepted > resolved_jobs(tables.stats[id]),
    )
}

/// How many rows a change touches, as the database counts them.
pub open spec fn touched_rows(tables: Tables, write: WriteView) -> nat {
    match write {
        WriteView::InsertUserIfAbsent { user_id, .. } => if tables.users.contains_key(user_id) {
            0
        } else {
            1
        },
        WriteView::SetEnabled { user_id, .. } => one_if(tables.users.contains_key(user_id)),
        WriteView::SetPackage { user_id, .. } => one_if(tables.users.contains_key(user_id)),
        WriteView::SetLimit { user_id, .. } => one_if(tables.users.contains_key(user_id)),
        WriteView::DropDailyUse { user_id, utc_day } => one_if(
            tables.daily.contains_key((user_id, utc_day)),
        ),
        WriteView::DropAccepted { user_id, .. } => one_if(tables.stats.contains_key(user_id)),
        WriteView::Reconcile { .. } => unsettled(tables).len(),
        _ => 1,
    }
}

pub open spec fn one_if(condition: bool) -> nat {
    if condition {
        1
    } else {
        0
    }
}

// ---------------------------------------------------------------------------
// What a migration does
// ---------------------------------------------------------------------------

/// A user in a database of the first version.
pub ghost struct TierUser {
    pub enabled: bool,
    pub tier: Seq<char>,
    pub limits: UserLimitOverrides,
}

/// What a database of the first version holds: its users have tiers, and there
/// are no statistics.
#[verifier::ext_equal]
pub ghost struct TierTables {
    pub users: Map<i64, TierUser>,
    /// How many jobs were accepted, by user and day.
    pub daily: Map<(i64, i64), nat>,
    pub imported: bool,
}

/// How many jobs of a user one row counts.
pub open spec fn row_use(daily: Map<(i64, i64), nat>, row: (i64, i64), user: i64) -> nat {
    if row.0 == user {
        daily[row]
    } else {
        0
    }
}

/// How many jobs of a user were accepted on all days together.
pub open spec fn total_use(daily: Map<(i64, i64), nat>, user: i64) -> nat
    decreases daily.dom().len(),
    when daily.dom().finite()
{
    if daily.dom().len() == 0 {
        0
    } else {
        let row = daily.dom().choose();
        row_use(daily, row, user) + total_use(daily.remove(row), user)
    }
}

/// A user with the package that is named like their tier.
pub open spec fn with_package(user: TierUser) -> StoredUser {
    StoredUser { enabled: user.enabled, package: user.tier, limits: user.limits }
}

/// Statistics of jobs of which nobody knows how they ended.
pub open spec fn carried_over(accepted: nat) -> StoredStats {
    StoredStats { accepted, completed: 0, failed: 0, cancelled: 0, interrupted: accepted }
}

/// The second version of what a database of the first one holds.
pub open spec fn with_packages(tables: TierTables) -> Tables {
    Tables {
        users: tables.users.map_values(|user: TierUser| with_package(user)),
        daily: tables.daily,
        stats: Map::new(
            |user: i64| total_use(tables.daily, user) > 0,
            |user: i64| carried_over(total_use(tables.daily, user)),
        ),
        imported: tables.imported,
    }
}

/// A database, by the version of its schema.
pub ghost enum Schema {
    /// Nothing has been created yet.
    Blank,
    Tiers(TierTables),
    Packages(Tables),
}

pub open spec fn version_of(schema: Schema) -> i64 {
    match schema {
        Schema::Blank => 0,
        Schema::Tiers(_) => 1,
        Schema::Packages(_) => 2,
    }
}

/// The database after a step.
pub open spec fn stepped(schema: Schema, step: SchemaStep) -> Schema {
    match (schema, step) {
        (Schema::Blank, SchemaStep::CreateTables) => Schema::Tiers(
            TierTables { users: Map::empty(), daily: Map::empty(), imported: false },
        ),
        (Schema::Tiers(tables), SchemaStep::TiersToPackages) => Schema::Packages(
            with_packages(tables),
        ),
        _ => schema,
    }
}

/// The database once every step that its version needs is done.
pub open spec fn migrated(schema: Schema) -> Schema {
    match schema {
        Schema::Blank => stepped(
            stepped(schema, SchemaStep::CreateTables),
            SchemaStep::TiersToPackages,
        ),
        Schema::Tiers(_) => stepped(schema, SchemaStep::TiersToPackages),
        Schema::Packages(_) => schema,
    }
}

// ---------------------------------------------------------------------------
// Requests
// ---------------------------------------------------------------------------

/// The application database. It decides what to write; whoever holds the
/// connection reads what it asks for and writes what it returns.
pub struct AppStore {
    path: String,
}

/// What leads from one version of the schema to the next.
#[derive(Clone, Copy, Debug, PartialEq, Eq, Structural)]
pub enum SchemaStep {
    /// Creates the tables of the first version.
    CreateTables,
    /// Makes packages of tiers, and statistics of daily use.
    TiersToPackages,
}

/// A step from one version of the schema to the next, and how it is done.
pub struct Migration {
    pub step: SchemaStep,
    /// The statements that change the schema.
    pub batch: &'static str,
    /// A statement that runs after them, with the time as its parameter.
    pub follow_up: Option<&'static str>,
    /// The statement that stores the new version.
    pub version_sql: &'static str,
    pub next_version: i64,
}

/// Whether a user may use the application.
pub open spec fn may_use(existing: Option<UserView>) -> bool {
    existing matches Some(user) && user.enabled
}

/// What is known of a user who may not be there.
pub open spec fn user_seen(existing: Option<&UserRecord>) -> Option<UserView> {
    match existing {
        Some(user) => Some(user@),
        None => None,
    }
}

/// What adding a user comes to.
pub open spec fn add_outcome(existing: Option<UserView>) -> AddUserOutcome {
    match existing {
        None => AddUserOutcome::Added,
        Some(user) => if user.enabled {
            AddUserOutcome::AlreadyEnabled
        } else {
            AddUserOutcome::Reenabled
        },
    }
}

/// What is written when a user is added.
pub open spec fn add_writes(user_id: i64, existing: Option<UserView>, package: Seq<char>, now: i64) -> Seq<
    WriteView,
> {
    match add_outcome(existing) {
        AddUserOutcome::Added => seq![WriteView::InsertUser { user_id, package, now }],
        AddUserOutcome::Reenabled => seq![WriteView::SetEnabled { user_id, enabled: true, now }],
        AddUserOutcome::AlreadyEnabled => Seq::empty(),
    }
}

/// What removing a user comes to.
pub open spec fn remove_outcome(existing: Option<UserView>) -> RemoveUserOutcome {
    match existing {
        None => RemoveUserOutcome::NotFound,
        Some(user) => if user.enabled {
            RemoveUserOutcome::Disabled
        } else {
            RemoveUserOutcome::AlreadyDisabled
        },
    }
}

/// What is written when a user is removed.
pub open spec fn remove_writes(user_id: i64, existing: Option<UserView>, now: i64) -> Seq<WriteView> {
    match remove_outcome(existing) {
        RemoveUserOutcome::Disabled => seq![WriteView::SetEnabled { user_id, enabled: false, now }],
        _ => Seq::empty(),
    }
}

/// A limit as the database stores it: nothing, for what the package says.
pub open spec fn stored_limit(value: UserLimitValue) -> Option<Option<i64>> {
    match value {
        UserLimitValue::Default => Some(None),
        UserLimitValue::Value(value) => if value <= i64::MAX {
            Some(Some(value as i64))
        } else {
            None
        },
    }
}

/// A count of the database, read without its sign.
pub open spec fn as_unsigned(count: i64) -> int {
    if count < 0 {
        count + 0x1_0000_0000_0000_0000
    } else {
        count as int
    }
}

/// Whether a daily limit is used up.
pub open spec fn limit_reached(limit: Option<u64>, current: i64) -> bool {
    limit matches Some(limit) && as_unsigned(current) >= limit
}

/// What is written when a job is counted in advance.
pub open spec fn reserve_writes(user_id: i64, utc_day: i64, now: i64) -> Seq<WriteView> {
    seq![
        WriteView::AddDailyUse { user_id, utc_day },
        WriteView::AddAccepted { user_id, now },
    ]
}

/// What is written when a job that was counted in advance is not run.
pub open spec fn release_writes(reservation: UsageReservation, now: i64) -> Seq<WriteView> {
    seq![
        WriteView::DropDailyUse {
            user_id: reservation.user_id,
            utc_day: reservation.utc_day,
        },
        WriteView::DropAccepted { user_id: reservation.user_id, now },
    ]
}

/// What is written for each of the users `ids`, of whom superusers get their
/// own package.
pub open spec fn import_writes(
    ids: Seq<i64>,
    super_users: Seq<i64>,
    default_package: Seq<char>,
    superuser_package: Seq<char>,
    now: i64,
) -> Seq<WriteView> {
    Seq::new(
        ids.len(),
        |i: int|
            WriteView::InsertUserIfAbsent {
                user_id: ids[i],
                package: if super_users.contains(ids[i]) {
                    superuser_package
                } else {
                    default_package
                },
                now,
            },
    )
}

/// What is written for the superusers up to the first improper ID.
pub open spec fn superuser_writes(super_users: Seq<i64>, package: Seq<char>, now: i64) -> Seq<WriteView> {
    Seq::new(
        super_users.len(),
        |i: int| WriteView::InsertUserIfAbsent { user_id: super_users[i], package, now },
    )
}

fn push_write(writes: &mut Vec<StoreWrite>, write: StoreWrite)
    ensures
        writes_seen(final(writes)@) == writes_seen(old(writes)@).push(write@),
        final(writes)@.len() == old(writes)@.len() + 1,
{
    writes.push(write);
    assert(writes_seen(writes@) =~= writes_seen(old(writes)@).push(write@));
}

impl AppStore {
    /// Where the database lies.
    pub closed spec fn place(self) -> Seq<char> {
        self.path@
    }

    pub fn open(path: &str) -> (result: AppStore)
        ensures
            result.place() == path@,
    {
        AppStore { path: path.to_owned() }
    }

    /// The files that only their owner may read.
    pub fn files(&self) -> (result: Vec<String>)
        ensures
            texts(result@) == private_files(self.place()),
    {
        let mut files: Vec<String> = Vec::new();
        if !same_text(self.path.as_str(), ":memory:") {
            push_text(&mut files, self.path.as_str());
            push_text(&mut files, sidecar_path(self.path.as_str(), "-journal").as_str());
            push_text(&mut files, sidecar_path(self.path.as_str(), "-shm").as_str());
            push_text(&mut files, sidecar_path(self.path.as_str(), "-tshm").as_str());
            push_text(&mut files, sidecar_path(self.path.as_str(), "-wal").as_str());
        }
        assert(texts(files@) =~= private_files(self.place()));
        files
    }

    /// The next step from a version of the schema, if one is needed.
    pub fn migrate(version: i64) -> (result: Result<Option<Migration>, StoreError>)
        ensures
            match result {
                Err(StoreError::NewerSchema(found)) => version > SCHEMA_VERSION && found == version,
                Err(StoreError::NoMigration(found)) => version < 0 && found == version,
                Err(_) => false,
                Ok(None) => version == SCHEMA_VERSION,
                Ok(Some(step)) => if version == 1 {
                    &&& step.step == SchemaStep::TiersToPackages
                    &&& step.batch@ == MIGRATE_V1_TO_V2_SQL@
                    &&& step.follow_up is Some
                    &&& step.follow_up->0@ == CARRY_USAGE_OVER_SQL@
                    &&& step.version_sql@ == "PRAGMA user_version = 2"@
                    &&& step.next_version == 2
                } else {
                    &&& version == 0
                    &&& step.step == SchemaStep::CreateTables
                    &&& step.batch@ == SCHEMA_V1_SQL@
                    &&& step.follow_up is None
                    &&& step.version_sql@ == "PRAGMA user_version = 1"@
                    &&& step.next_version == 1
                },
            },
            forall|schema: Schema| #[trigger]
                version_of(schema) == version ==> match result {
                    Ok(Some(step)) => version_of(stepped(schema, step.step)) == step.next_version
                        && migrated(stepped(schema, step.step)) == migrated(schema),
                    Ok(None) => migrated(schema) == schema,
                    Err(_) => false,
                },
    {
        if version > SCHEMA_VERSION {
            Err(StoreError::NewerSchema(version))
        } else if version == SCHEMA_VERSION {
            Ok(None)
        } else if version == 1 {
            Ok(
                Some(
                    Migration {
                        step: SchemaStep::TiersToPackages,
                        batch: MIGRATE_V1_TO_V2_SQL,
                        follow_up: Some(CARRY_USAGE_OVER_SQL),
                        version_sql: "PRAGMA user_version = 2",
                        next_version: 2,
                    },
                ),
            )
        } else if version == 0 {
            Ok(
                Some(
                    Migration {
                        step: SchemaStep::CreateTables,
                        batch: SCHEMA_V1_SQL,
                        follow_up: None,
                        version_sql: "PRAGMA user_version = 1",
                        next_version: 1,
                    },
                ),
            )
        } else {
            Err(StoreError::NoMigration(version))
        }
    }

    /// Who is imported from the configuration: everyone, in order and once.
    pub fn bootstrap_users(allowed_users: &[i64], super_users: &[i64]) -> (result: Vec<i64>)
        ensures
            is_ordered(result@),
            forall|id: i64| #[trigger]
                result@.contains(id) <==> allowed_users@.contains(id) || super_users@.contains(id),
    {
        let mut ids: Vec<i64> = Vec::new();
        insert_all(&mut ids, allowed_users);
        insert_all(&mut ids, super_users);
        ids
    }

    /// What is written to import the users of the configuration. That is done
    /// once; afterwards nothing is.
    pub fn import_bootstrap_users(
        imported: bool,
        allowed_users: &[i64],
        super_users: &[i64],
        default_package: &PackageName,
        superuser_package: &PackageName,
        now: i64,
    ) -> (result: Result<Vec<StoreWrite>, StoreError>)
        ensures
            imported ==> (result matches Ok(writes) && writes@.len() == 0),
            !imported ==> match result {
                Ok(writes) => exists|ids: Seq<i64>| #[trigger]
                    is_ordered(ids) && (forall|id: i64| #[trigger]
                        ids.contains(id) <==> allowed_users@.contains(id) || super_users@.contains(
                            id,
                        )) && (forall|id: i64| #[trigger] ids.contains(id) ==> id > 0)
                        && writes_seen(writes@) == import_writes(
                        ids,
                        super_users@,
                        default_package@,
                        superuser_package@,
                        now,
                    ).push(WriteView::MarkImported),
                Err(error) => error == StoreError::InvalidUserId && exists|id: i64|
                    id <= 0 && #[trigger] listed(allowed_users@, super_users@, id),
            },
    {
        let mut writes: Vec<StoreWrite> = Vec::new();
        if imported {
            return Ok(writes);
        }
        let ids = AppStore::bootstrap_users(allowed_users, super_users);
        let ghost expected = import_writes(
            ids@,
            super_users@,
            default_package@,
            superuser_package@,
            now,
        );
        let mut i: usize = 0;
        assert(writes_seen(writes@) =~= expected.take(0));
        while i < ids.len()
            invariant
                !imported,
                i <= ids@.len(),
                forall|id: i64| #[trigger]
                    ids@.contains(id) <==> allowed_users@.contains(id) || super_users@.contains(id),
                forall|k: int| 0 <= k < i ==> #[trigger] ids@[k] > 0,
                expected == import_writes(
                    ids@,
                    super_users@,
                    default_package@,
                    superuser_package@,
                    now,
                ),
                writes_seen(writes@) == expected.take(i as int),
            decreases ids@.len() - i,
        {
            let user_id: i64 = ids[i];
            if let Err(error) = validate_user_id(user_id) {
                proof {
                    assert(ids@.contains(user_id));
                    assert(listed(allowed_users@, super_users@, user_id));
                }
                return Err(error);
            }
            let package = if crate::ids::contains_id(super_users, user_id) {
                superuser_package.clone()
            } else {
                default_package.clone()
            };
            push_write(&mut writes, StoreWrite::InsertUserIfAbsent { user_id, package, now });
            assert(writes_seen(writes@) =~= expected.take(i + 1));
            i = i + 1;
        }
        assert(expected.take(i as int) =~= expected);
        push_write(&mut writes, StoreWrite::MarkImported);
        proof {
            assert forall|id: i64| #[trigger] ids@.contains(id) implies id > 0 by {
                let k = choose|k: int| 0 <= k < ids@.len() && ids@[k] == id;
                assert(ids@[k] > 0);
            }
            assert(is_ordered(ids@));
        }
        Ok(writes)
    }

    /// What is written so that every superuser is stored: all of them, or those
    /// before the first improper ID.
    pub fn ensure_superusers(super_users: &[i64], package: &PackageName, now: i64) -> (result: (
        Vec<StoreWrite>,
        Option<StoreError>,
    ))
        ensures
            match result.1 {
                None => (forall|i: int| 0 <= i < super_users@.len() ==> #[trigger] super_users@[i]
                    > 0) && writes_seen(result.0@) == superuser_writes(
                    super_users@,
                    package@,
                    now,
                ),
                Some(error) => error == StoreError::InvalidUserId && result.0@.len()
                    < super_users@.len() && super_users@[result.0@.len() as int] <= 0 && (forall|
                    i: int,
                |
                    0 <= i < result.0@.len() ==> #[trigger] super_users@[i] > 0) && writes_seen(
                    result.0@,
                ) == superuser_writes(
                    super_users@.take(result.0@.len() as int),
                    package@,
                    now,
                ),
            },
    {
        let mut writes: Vec<StoreWrite> = Vec::new();
        let ghost expected = superuser_writes(super_users@, package@, now);
        let mut i: usize = 0;
        assert(writes_seen(writes@) =~= expected.take(0));
        while i < super_users.len()
            invariant
                i <= super_users@.len(),
                writes@.len() == i,
                forall|k: int| 0 <= k < i ==> #[trigger] super_users@[k] > 0,
                expected == superuser_writes(super_users@, package@, now),
                writes_seen(writes@) == expected.take(i as int),
            decreases super_users@.len() - i,
        {
            let user_id: i64 = super_users[i];
            if let Err(error) = validate_user_id(user_id) {
                assert(expected.take(i as int) =~= superuser_writes(
                    super_users@.take(i as int),
                    package@,
                    now,
                ));
                return (writes, Some(error));
            }
            push_write(
                &mut writes,
                StoreWrite::InsertUserIfAbsent { user_id, package: package.clone(), now },
            );
            assert(writes_seen(writes@) =~= expected.take(i + 1));
            i = i + 1;
        }
        assert(expected.take(i as int) =~= expected);
        (writes, None)
    }

    /// What is written to account for jobs that were never heard of again.
    pub fn reconcile_interrupted_jobs(now: i64) -> (result: StoreWrite)
        ensures
            result@ == (WriteView::Reconcile { now }),
    {
        StoreWrite::Reconcile { now }
    }

    pub fn is_user_enabled(existing: Option<&UserRecord>) -> (result: bool)
        ensures
            result == may_use(user_seen(existing)),
    {
        match existing {
            Some(user) => user.enabled,
            None => false,
        }
    }

    /// Reads one user, if they are there.
    pub fn get_user(row: Option<UserColumns>) -> (result: Result<Option<UserRecord>, StoreError>)
        ensures
            match (result, row) {
                (Ok(None), None) => true,
                (Ok(Some(user)), Some(row)) => Ok::<UserView, StoreError>(user@) == user_in(row),
                (Err(error), Some(row)) => Err::<UserView, StoreError>(error) == user_in(row),
                _ => false,
            },
    {
        match row {
            None => Ok(None),
            Some(row) => match user_from_row(row) {
                Ok(user) => Ok(Some(user)),
                Err(error) => Err(error),
            },
        }
    }

    /// Reads every user, unless one of them makes no sense.
    pub fn list_users(rows: &[UserColumns]) -> (result: Result<Vec<UserRecord>, StoreError>)
        ensures
            match result {
                Ok(users) => users@.len() == rows@.len() && forall|i: int|
                    0 <= i < rows@.len() ==> Ok::<UserView, StoreError>(#[trigger] users@[i]@)
                        == user_in(rows@[i]),
                Err(error) => exists|i: int|
                    0 <= i < rows@.len() && user_in(#[trigger] rows@[i]) == Err::<
                        UserView,
                        StoreError,
                    >(error) && forall|k: int|
                        0 <= k < i ==> user_in(#[trigger] rows@[k]) is Ok,
            },
    {
        let mut users: Vec<UserRecord> = Vec::new();
        let mut i: usize = 0;
        while i < rows.len()
            invariant
                i <= rows@.len(),
                users@.len() == i,
                forall|k: int|
                    0 <= k < i ==> Ok::<UserView, StoreError>(#[trigger] users@[k]@) == user_in(
                        rows@[k],
                    ),
                forall|k: int| 0 <= k < i ==> user_in(#[trigger] rows@[k]) is Ok,
            decreases rows@.len() - i,
        {
            match user_from_row(rows[i]) {
                Ok(user) => {
                    users.push(user);
                },
                Err(error) => {
                    assert(user_in(rows@[i as int]) == Err::<UserView, StoreError>(error));
                    return Err(error);
                },
            }
            i = i + 1;
        }
        Ok(users)
    }

    /// Reads the statistics of a user.
    pub fn user_stats(user_id: i64, row: StatsColumns) -> (result: Result<
        DownloadStats,
        StoreError,
    >)
        ensures
            user_id <= 0 ==> result == Err::<DownloadStats, StoreError>(StoreError::InvalidUserId),
            user_id > 0 ==> result == stats_in(row),
    {
        match validate_user_id(user_id) {
            Ok(_) => stats_from_row(row),
            Err(error) => Err(error),
        }
    }

    /// Reads the statistics of the whole application off a row.
    pub fn global_stats(users: i64, enabled_users: i64, row: StatsColumns) -> (result: Result<
        GlobalStats,
        StoreError,
    >)
        ensures
            users < 0 ==> result == Err::<GlobalStats, StoreError>(
                StoreError::InvalidField(StoreField::Users),
            ),
            users >= 0 && enabled_users < 0 ==> result == Err::<GlobalStats, StoreError>(
                StoreError::InvalidField(StoreField::EnabledUsers),
            ),
            users >= 0 && enabled_users >= 0 ==> result == (match stats_in(row) {
                Ok(downloads) => Ok::<GlobalStats, StoreError>(
                    GlobalStats {
                        users: users as u64,
                        enabled_users: enabled_users as u64,
                        downloads,
                    },
                ),
                Err(error) => Err(error),
            }),
    {
        let users: u64 = match nonnegative_u64(users, StoreField::Users) {
            Ok(value) => value,
            Err(error) => {
                return Err(error);
            },
        };
        let enabled_users: u64 = match nonnegative_u64(enabled_users, StoreField::EnabledUsers) {
            Ok(value) => value,
            Err(error) => {
                return Err(error);
            },
        };
        match stats_from_row(row) {
            Ok(downloads) => Ok(GlobalStats { users, enabled_users, downloads }),
            Err(error) => Err(error),
        }
    }

    /// Adds a user, or enables them again with everything they had.
    pub fn add_user(
        user_id: i64,
        existing: Option<&UserRecord>,
        default_package: &PackageName,
        now: i64,
    ) -> (result: Result<(AddUserOutcome, Vec<StoreWrite>), StoreError>)
        ensures
            match result {
                Ok((outcome, writes)) => user_id > 0 && outcome == add_outcome(user_seen(existing))
                    && writes_seen(writes@) == add_writes(
                    user_id,
                    user_seen(existing),
                    default_package@,
                    now,
                ),
                Err(error) => user_id <= 0 && error == StoreError::InvalidUserId,
            },
    {
        if let Err(error) = validate_user_id(user_id) {
            return Err(error);
        }
        let mut writes: Vec<StoreWrite> = Vec::new();
        let outcome = match existing {
            None => {
                writes.push(
                    StoreWrite::InsertUser { user_id, package: default_package.clone(), now },
                );
                AddUserOutcome::Added
            },
            Some(user) => if user.enabled {
                AddUserOutcome::AlreadyEnabled
            } else {
                writes.push(StoreWrite::SetEnabled { user_id, enabled: true, now });
                AddUserOutcome::Reenabled
            },
        };
        assert(writes_seen(writes@) =~= add_writes(
            user_id,
            user_seen(existing),
            default_package@,
            now,
        ));
        Ok((outcome, writes))
    }

    /// Disables a user, who keeps everything they have.
    pub fn remove_user(user_id: i64, existing: Option<&UserRecord>, now: i64) -> (result: Result<
        (RemoveUserOutcome, Vec<StoreWrite>),
        StoreError,
    >)
        ensures
            match result {
                Ok((outcome, writes)) => user_id > 0 && outcome == remove_outcome(
                    user_seen(existing),
                ) && writes_seen(writes@) == remove_writes(user_id, user_seen(existing), now),
                Err(error) => user_id <= 0 && error == StoreError::InvalidUserId,
            },
    {
        if let Err(error) = validate_user_id(user_id) {
            return Err(error);
        }
        let mut writes: Vec<StoreWrite> = Vec::new();
        let outcome = match existing {
            None => RemoveUserOutcome::NotFound,
            Some(user) => if user.enabled {
                writes.push(StoreWrite::SetEnabled { user_id, enabled: false, now });
                RemoveUserOutcome::Disabled
            } else {
                RemoveUserOutcome::AlreadyDisabled
            },
        };
        assert(writes_seen(writes@) =~= remove_writes(user_id, user_seen(existing), now));
        Ok((outcome, writes))
    }

    /// Gives a user another package, if they are there.
    pub fn set_user_package(
        user_id: i64,
        existing: Option<&UserRecord>,
        package: &PackageName,
        now: i64,
    ) -> (result: Result<Option<StoreWrite>, StoreError>)
        ensures
            match result {
                Ok(Some(write)) => user_id > 0 && existing is Some && write@ == (
                WriteView::SetPackage { user_id, package: package@, now }),
                Ok(None) => user_id > 0 && existing is None,
                Err(error) => user_id <= 0 && error == StoreError::InvalidUserId,
            },
    {
        if let Err(error) = validate_user_id(user_id) {
            return Err(error);
        }
        match existing {
            None => Ok(None),
            Some(_) => Ok(
                Some(StoreWrite::SetPackage { user_id, package: package.clone(), now }),
            ),
        }
    }

    /// Sets a limit of a user, or takes it back, if they are there.
    pub fn set_user_limit(
        user_id: i64,
        existing: Option<&UserRecord>,
        name: UserLimitName,
        value: UserLimitValue,
        now: i64,
    ) -> (result: Result<Option<StoreWrite>, StoreError>)
        ensures
            match result {
                Ok(Some(write)) => user_id > 0 && existing is Some && stored_limit(value) is Some
                    && write@ == (WriteView::SetLimit {
                    user_id,
                    name,
                    value: stored_limit(value)->0,
                    now,
                }),
                Ok(None) => user_id > 0 && existing is None,
                Err(error) => if user_id <= 0 {
                    error == StoreError::InvalidUserId
                } else {
                    existing is Some && stored_limit(value) is None && error
                        == StoreError::LimitTooLarge
                },
            },
    {
        if let Err(error) = validate_user_id(user_id) {
            return Err(error);
        }
        if existing.is_none() {
            return Ok(None);
        }
        let value = match value {
            UserLimitValue::Default => None,
            UserLimitValue::Value(value) => if value <= i64::MAX as u64 {
                Some(value as i64)
            } else {
                return Err(StoreError::LimitTooLarge);
            },
        };
        Ok(Some(StoreWrite::SetLimit { user_id, name, value, now }))
    }

    /// Counts a job of a user in advance, unless `current` jobs of the day use
    /// up their limit.
    pub fn reserve_daily_job(user_id: i64, limit: Option<u64>, current: i64, now: i64) -> (result: (
        ReserveUsageOutcome,
        Vec<StoreWrite>,
    ))
        requires
            now >= 0,
        ensures
            limit_reached(limit, current) ==> result.0 == ReserveUsageOutcome::LimitReached
                && result.1@.len() == 0,
            !limit_reached(limit, current) ==> result.0 == ReserveUsageOutcome::Reserved(
                UsageReservation { user_id, utc_day: (now as int / 86_400) as i64 },
            ) && writes_seen(result.1@) == reserve_writes(
                user_id,
                (now as int / 86_400) as i64,
                now,
            ),
    {
        let mut writes: Vec<StoreWrite> = Vec::new();
        let used: i128 = if current < 0 {
            current as i128 + 0x1_0000_0000_0000_0000
        } else {
            current as i128
        };
        if let Some(limit) = limit {
            if used >= limit as i128 {
                return (ReserveUsageOutcome::LimitReached, writes);
            }
        }
        let utc_day: i64 = current_utc_day(now);
        writes.push(StoreWrite::AddDailyUse { user_id, utc_day });
        writes.push(StoreWrite::AddAccepted { user_id, now });
        assert(writes_seen(writes@) =~= reserve_writes(user_id, utc_day, now));
        (ReserveUsageOutcome::Reserved(UsageReservation { user_id, utc_day }), writes)
    }

    /// Takes back a job that was counted in advance.
    pub fn release_daily_job(reservation: UsageReservation, now: i64) -> (result: Vec<StoreWrite>)
        ensures
            writes_seen(result@) == release_writes(reservation, now),
    {
        let mut writes: Vec<StoreWrite> = Vec::new();
        writes.push(
            StoreWrite::DropDailyUse {
                user_id: reservation.user_id,
                utc_day: reservation.utc_day,
            },
        );
        writes.push(StoreWrite::DropAccepted { user_id: reservation.user_id, now });
        assert(writes_seen(writes@) =~= release_writes(reservation, now));
        writes
    }

    /// Counts a job that has ended.
    pub fn record_download_outcome(user_id: i64, outcome: DownloadStatOutcome, now: i64) -> (result:
        Result<StoreWrite, StoreError>)
        ensures
            match result {
                Ok(write) => user_id > 0 && write@ == (WriteView::AddOutcome {
                    user_id,
                    outcome,
                    now,
                }),
                Err(error) => user_id <= 0 && error == StoreError::InvalidUserId,
            },
    {
        match validate_user_id(user_id) {
            Ok(_) => Ok(StoreWrite::AddOutcome { user_id, outcome, now }),
            Err(error) => Err(error),
        }
    }
}

/// Whether `id` is in one of the lists.
pub open spec fn listed(one: Seq<i64>, other: Seq<i64>, id: i64) -> bool {
    one.contains(id) || other.contains(id)
}

// ---------------------------------------------------------------------------
// Laws
// ---------------------------------------------------------------------------

/// The user of that ID in the database.
pub open spec fn user_at(tables: Tables, user_id: i64) -> Option<UserView> {
    if tables.users.contains_key(user_id) {
        let user = tables.users[user_id];
        Some(
            UserView {
                telegram_id: user_id,
                enabled: user.enabled,
                package: user.package,
                limits: user.limits,
            },
        )
    } else {
        None
    }
}

/// A disabled user loses neither package nor overrides nor statistics, and has
/// them all when they are added again.
pub proof fn law_removed_users_keep_everything(
    tables: Tables,
    user_id: i64,
    default_package: Seq<char>,
    now: i64,
    later: i64,
)
    requires
        tables.users.contains_key(user_id),
        tables.users[user_id].enabled,
    ensures
        ({
            let removed = applied_all(
                tables,
                remove_writes(user_id, user_at(tables, user_id), now),
            );
            let added = applied_all(
                removed,
                add_writes(user_id, user_at(removed, user_id), default_package, later),
            );
            &&& !may_use(user_at(removed, user_id))
            &&& removed.users[user_id] == (StoredUser { enabled: false, ..tables.users[user_id] })
            &&& removed.stats == tables.stats
            &&& added == tables
        }),
{
    reveal_with_fuel(applied_all, 2);
    let removed = applied_all(tables, remove_writes(user_id, user_at(tables, user_id), now));
    let added = applied_all(
        removed,
        add_writes(user_id, user_at(removed, user_id), default_package, later),
    );
    assert(remove_writes(user_id, user_at(tables, user_id), now).drop_last() =~= Seq::empty());
    assert(add_writes(
        user_id,
        user_at(removed, user_id),
        default_package,
        later,
    ).drop_last() =~= Seq::empty());
    assert(added.users =~= tables.users);
    assert(added =~= tables);
}

/// A new user is enabled, has the default package, and no overrides.
pub proof fn law_new_users_start_with_the_default_package(
    tables: Tables,
    user_id: i64,
    default_package: Seq<char>,
    now: i64,
)
    requires
        !tables.users.contains_key(user_id),
    ensures
        ({
            let added = applied_all(
                tables,
                add_writes(user_id, user_at(tables, user_id), default_package, now),
            );
            may_use(user_at(added, user_id)) && added.users[user_id] == new_user(default_package)
        }),
{
    reveal_with_fuel(applied_all, 2);
    assert(add_writes(
        user_id,
        user_at(tables, user_id),
        default_package,
        now,
    ).drop_last() =~= Seq::empty());
}

/// A change of package keeps the overrides, and setting a limit keeps the
/// package and the other overrides; no other user is touched.
pub proof fn law_packages_and_overrides_are_separate(
    tables: Tables,
    user_id: i64,
    package: Seq<char>,
    name: UserLimitName,
    value: Option<i64>,
    now: i64,
    other: i64,
)
    requires
        tables.users.contains_key(user_id),
        other != user_id,
    ensures
        ({
            let moved = applied(tables, WriteView::SetPackage { user_id, package, now });
            let limited = applied(tables, WriteView::SetLimit { user_id, name, value, now });
            &&& moved.users[user_id].limits == tables.users[user_id].limits
            &&& moved.users[user_id].package == package
            &&& limited.users[user_id].package == tables.users[user_id].package
            &&& limited.users[user_id].enabled == tables.users[user_id].enabled
            &&& user_at(moved, other) == user_at(tables, other)
            &&& user_at(limited, other) == user_at(tables, other)
        }),
{
}

/// Releasing a job undoes counting it.
pub proof fn law_release_undoes_reserve(
    tables: Tables,
    user_id: i64,
    utc_day: i64,
    now: i64,
    later: i64,
)
    ensures
        ({
            let reserved = applied_all(tables, reserve_writes(user_id, utc_day, now));
            let released = applied_all(
                reserved,
                release_writes(UsageReservation { user_id, utc_day }, later),
            );
            &&& daily_count(reserved, user_id, utc_day) == daily_count(tables, user_id, utc_day) + 1
            &&& stats_of(reserved, user_id).accepted == stats_of(tables, user_id).accepted + 1
            &&& daily_count(released, user_id, utc_day) == daily_count(tables, user_id, utc_day)
            &&& stats_of(released, user_id) == stats_of(tables, user_id)
            &&& released.users == tables.users
        }),
{
    reveal_with_fuel(applied_all, 3);
    let writes = reserve_writes(user_id, utc_day, now);
    assert(writes.drop_last() =~= seq![WriteView::AddDailyUse { user_id, utc_day }]);
    assert(writes.drop_last().drop_last() =~= Seq::empty());
    let undoing = release_writes(UsageReservation { user_id, utc_day }, later);
    assert(undoing.drop_last() =~= seq![WriteView::DropDailyUse { user_id, utc_day }]);
    assert(undoing.drop_last().drop_last() =~= Seq::empty());
}

/// A daily limit is never exceeded: whenever a job is counted, the count stays
/// within it.
pub proof fn law_daily_limits_hold(
    tables: Tables,
    user_id: i64,
    utc_day: i64,
    limit: u64,
    current: i64,
    now: i64,
)
    requires
        current == daily_count(tables, user_id, utc_day),
        !limit_reached(Some(limit), current),
    ensures
        daily_count(applied_all(tables, reserve_writes(user_id, utc_day, now)), user_id, utc_day)
            <= limit,
{
    law_release_undoes_reserve(tables, user_id, utc_day, now, now);
}

/// Statistics as they are shown.
pub open spec fn shown_stats(stats: StoredStats, today: nat) -> DownloadStats {
    DownloadStats {
        accepted_jobs: stats.accepted as u64,
        completed_jobs: stats.completed as u64,
        failed_jobs: stats.failed as u64,
        cancelled_jobs: stats.cancelled as u64,
        interrupted_jobs: stats.interrupted as u64,
        accepted_today: today as u64,
    }
}

/// After a start no job is left unresolved: what was not heard of counts as
/// interrupted, and what was known stays.
pub proof fn law_reconciling_leaves_nothing_unresolved(tables: Tables, user_id: i64, now: i64)
    requires
        stats_of(tables, user_id).accepted <= u64::MAX,
        resolved_jobs(stats_of(tables, user_id)) <= u64::MAX,
    ensures
        ({
            let before = stats_of(tables, user_id);
            let after = stats_of(applied(tables, WriteView::Reconcile { now }), user_id);
            &&& unresolved(shown_stats(after, 0)) == 0
            &&& after.interrupted == before.interrupted + unresolved(shown_stats(before, 0))
            &&& after.accepted == before.accepted
            &&& after.completed == before.completed
            &&& after.failed == before.failed
            &&& after.cancelled == before.cancelled
            &&& reconciled(after) == after
        }),
{
}

/// Reconciling touches the users whose jobs are unresolved, and nobody else;
/// doing it again at once touches nobody and changes nothing.
pub proof fn law_reconciling_twice_is_reconciling_once(tables: Tables, now: i64, later: i64)
    ensures
        ({
            let after = applied(tables, WriteView::Reconcile { now });
            &&& touched_rows(tables, WriteView::Reconcile { now }) == unsettled(tables).len()
            &&& forall|id: i64| #[trigger]
                tables.stats.contains_key(id) ==> after.stats.contains_key(id) && (
                unsettled(tables).contains(id) <==> after.stats[id] != tables.stats[id])
            &&& forall|id: i64| #[trigger]
                tables.stats.contains_key(id) ==> resolved_jobs(after.stats[id])
                    >= after.stats[id].accepted
            &&& after.users == tables.users
            &&& after.daily == tables.daily
            &&& after.imported == tables.imported
            &&& unsettled(after) == Set::<i64>::empty()
            &&& touched_rows(after, WriteView::Reconcile { now: later }) == 0
            &&& applied(after, WriteView::Reconcile { now: later }) == after
        }),
{
    let after = applied(tables, WriteView::Reconcile { now });
    assert(unsettled(after) =~= Set::empty());
    assert(applied(after, WriteView::Reconcile { now: later }).stats =~= after.stats);
}

/// Every row counts once in the use of all days: it does not matter in which
/// order the rows are added up.
pub proof fn law_total_use_adds_up_the_rows(
    daily: Map<(i64, i64), nat>,
    row: (i64, i64),
    user: i64,
)
    requires
        daily.dom().finite(),
        daily.contains_key(row),
    ensures
        total_use(daily, user) == row_use(daily, row, user) + total_use(daily.remove(row), user),
    decreases daily.dom().len(),
{
    let first = daily.dom().choose();
    assert(daily.dom().contains(row));
    assert(daily.dom().len() > 0);
    if first != row {
        let without_first = daily.remove(first);
        let without_row = daily.remove(row);
        assert(without_first.dom() =~= daily.dom().remove(first));
        assert(without_row.dom() =~= daily.dom().remove(row));
        law_total_use_adds_up_the_rows(without_first, row, user);
        law_total_use_adds_up_the_rows(without_row, first, user);
        assert(without_first.remove(row) =~= without_row.remove(first));
    }
}

/// A database of the first version becomes one of the second: every user keeps
/// their state and overrides, has the package that is named like their tier, and
/// their daily use. The jobs that were accepted count as interrupted.
pub proof fn law_migration_keeps_users_and_use(tables: TierTables, user: i64, day: i64)
    ensures
        migrated(Schema::Tiers(tables)) == Schema::Packages(with_packages(tables)),
        ({
            let after = with_packages(tables);
            let jobs = total_use(tables.daily, user);
            &&& after.users.contains_key(user) == tables.users.contains_key(user)
            &&& tables.users.contains_key(user) ==> {
                &&& after.users[user].enabled == tables.users[user].enabled
                &&& after.users[user].package == tables.users[user].tier
                &&& after.users[user].limits == tables.users[user].limits
            }
            &&& after.daily == tables.daily
            &&& after.imported == tables.imported
            &&& after.stats.contains_key(user) == (jobs > 0)
            &&& stats_of(after, user) == (StoredStats {
                accepted: jobs,
                interrupted: jobs,
                ..no_stats()
            })
        }),
{
}

/// After every migration the schema is the current one. A database that has it
/// already is left alone.
pub proof fn law_migrations_reach_the_current_schema(schema: Schema)
    ensures
        version_of(migrated(schema)) == SCHEMA_VERSION,
        version_of(schema) == SCHEMA_VERSION ==> migrated(schema) == schema,
        migrated(migrated(schema)) == migrated(schema),
{
}

/// The users of the first version can be read after their migration.
pub proof fn law_migrated_users_can_be_read(user: TierUser)
    requires
        user.tier == "free"@ || user.tier == "paid"@,
        storable_limit(limit_number(user.limits.max_active_jobs)),
        storable_limit(limit_number(user.limits.max_queued_jobs)),
        storable_limit(limit_amount(user.limits.daily_job_limit)),
        storable_limit(limit_amount(user.limits.max_upload_size_mb)),
    ensures
        readable(with_package(user)),
{
    reveal_strlit("free");
    reveal_strlit("paid");
    assert(ascii_lowered(user.tier) =~= user.tier);
}

/// A job that has ended is counted once, under its outcome.
pub proof fn law_outcomes_are_counted_once(
    tables: Tables,
    user_id: i64,
    outcome: DownloadStatOutcome,
    now: i64,
    other: i64,
)
    requires
        other != user_id,
    ensures
        ({
            let after = applied(tables, WriteView::AddOutcome { user_id, outcome, now });
            &&& resolved_jobs(stats_of(after, user_id)) == resolved_jobs(stats_of(tables, user_id))
                + 1
            &&& stats_of(after, user_id).accepted == stats_of(tables, user_id).accepted
            &&& stats_of(after, other) == stats_of(tables, other)
        }),
{
}

/// Importing the users of a configuration stores each of them, superusers with
/// their own package, keeps who is there already, and is remembered.
pub proof fn law_import_stores_everyone(
    tables: Tables,
    ids: Seq<i64>,
    super_users: Seq<i64>,
    default_package: Seq<char>,
    superuser_package: Seq<char>,
    now: i64,
    i: int,
)
    requires
        is_ordered(ids),
        0 <= i < ids.len(),
    ensures
        ({
            let after = applied_all(
                tables,
                import_writes(ids, super_users, default_package, superuser_package, now).push(
                    WriteView::MarkImported,
                ),
            );
            &&& after.imported
            &&& after.users.contains_key(ids[i])
            &&& after.users[ids[i]] == (if tables.users.contains_key(ids[i]) {
                tables.users[ids[i]]
            } else if super_users.contains(ids[i]) {
                new_user(superuser_package)
            } else {
                new_user(default_package)
            })
        }),
{
    let writes = import_writes(ids, super_users, default_package, superuser_package, now);
    let all = writes.push(WriteView::MarkImported);
    assert(all.drop_last() =~= writes);
    lemma_import(
        tables,
        ids,
        super_users,
        default_package,
        superuser_package,
        now,
        ids.len() as int,
        i,
    );
    assert(writes.take(ids.len() as int) =~= writes);
}

proof fn lemma_import(
    tables: Tables,
    ids: Seq<i64>,
    super_users: Seq<i64>,
    default_package: Seq<char>,
    superuser_package: Seq<char>,
    now: i64,
    count: int,
    i: int,
)
    requires
        is_ordered(ids),
        0 <= count <= ids.len(),
        0 <= i < ids.len(),
    ensures
        ({
            let after = applied_all(
                tables,
                import_writes(ids, super_users, default_package, superuser_package, now).take(count),
            );
            &&& after.imported == tables.imported
            &&& i < count ==> after.users.contains_key(ids[i])
            &&& i < count ==> after.users[ids[i]] == (if tables.users.contains_key(ids[i]) {
                tables.users[ids[i]]
            } else if super_users.contains(ids[i]) {
                new_user(superuser_package)
            } else {
                new_user(default_package)
            })
            &&& i >= count ==> after.users.contains_key(ids[i]) == tables.users.contains_key(ids[i])
                && after.users[ids[i]] == tables.users[ids[i]]
        }),
    decreases count,
{
    let writes = import_writes(ids, super_users, default_package, superuser_package, now);
    if count > 0 {
        assert(writes.take(count).drop_last() =~= writes.take(count - 1));
        lemma_import(
            tables,
            ids,
            super_users,
            default_package,
            superuser_package,
            now,
            count - 1,
            i,
        );
        if i < count - 1 {
            assert(ids[i] < ids[count - 1]);
        }
        if i > count - 1 {
            assert(ids[count - 1] < ids[i]);
        }
    } else {
        assert(writes.take(0) =~= Seq::empty());
    }
}

/// After a start every configured superuser is stored. Who is stored already
/// stays as they are, and nobody else is added.
pub proof fn law_superusers_are_stored(
    tables: Tables,
    super_users: Seq<i64>,
    package: Seq<char>,
    now: i64,
    id: i64,
)
    ensures
        ({
            let after = applied_all(tables, superuser_writes(super_users, package, now));
            &&& after.users.contains_key(id) == (tables.users.contains_key(id)
                || super_users.contains(id))
            &&& tables.users.contains_key(id) ==> after.users[id] == tables.users[id]
            &&& !tables.users.contains_key(id) && super_users.contains(id) ==> after.users[id]
                == new_user(package)
            &&& after.stats == tables.stats
            &&& after.daily == tables.daily
        }),
    decreases super_users.len(),
{
    let writes = superuser_writes(super_users, package, now);
    if super_users.len() > 0 {
        let fewer = super_users.drop_last();
        assert(writes.drop_last() =~= superuser_writes(fewer, package, now));
        law_superusers_are_stored(tables, fewer, package, now, id);
        if super_users.contains(id) && id != super_users.last() {
            let i = choose|i: int| 0 <= i < super_users.len() && super_users[i] == id;
            assert(fewer[i] == id);
        }
        if fewer.contains(id) {
            let i = choose|i: int| 0 <= i < fewer.len() && fewer[i] == id;
            assert(super_users[i] == id);
        }
        assert(super_users.contains(super_users.last()));
        law_superusers_are_stored(tables, fewer, package, now, super_users.last());
    }
}

/// Whether a column can hold a limit.
pub open spec fn storable_limit(limit: Option<int>) -> bool {
    limit matches Some(value) ==> 0 < value <= i64::MAX
}

pub open spec fn limit_number(limit: Option<usize>) -> Option<int> {
    match limit {
        Some(value) => Some(value as int),
        None => None,
    }
}

pub open spec fn limit_amount(limit: Option<u64>) -> Option<int> {
    match limit {
        Some(value) => Some(value as int),
        None => None,
    }
}

/// Whether a user is stored in a way that can be read.
pub open spec fn readable(user: StoredUser) -> bool {
    &&& package_in(user.package) == Some(user.package)
    &&& storable_limit(limit_number(user.limits.max_active_jobs))
    &&& storable_limit(limit_number(user.limits.max_queued_jobs))
    &&& storable_limit(limit_amount(user.limits.daily_job_limit))
    &&& storable_limit(limit_amount(user.limits.max_upload_size_mb))
}

/// Whether a column holds a limit.
pub open spec fn column_holds(column: Option<i64>, limit: Option<int>) -> bool {
    match (column, limit) {
        (Some(column), Some(limit)) => column == limit,
        (None, None) => true,
        _ => false,
    }
}

/// Whether a row is the one of a user.
pub open spec fn row_holds(row: UserColumns, user_id: i64, user: StoredUser) -> bool {
    &&& row.telegram_id == user_id
    &&& row.enabled == (if user.enabled {
        1i64
    } else {
        0i64
    })
    &&& row.package@ == user.package
    &&& column_holds(row.max_active_jobs, limit_number(user.limits.max_active_jobs))
    &&& column_holds(row.max_queued_jobs, limit_number(user.limits.max_queued_jobs))
    &&& column_holds(row.daily_job_limit, limit_amount(user.limits.daily_job_limit))
    &&& column_holds(row.max_upload_size_mb, limit_amount(user.limits.max_upload_size_mb))
}

/// Whether a change writes what can be read: names of packages in their proper
/// form, and limits above zero.
pub open spec fn writes_properly(write: WriteView) -> bool {
    match write {
        WriteView::InsertUser { package, .. } => package_in(package) == Some(package),
        WriteView::InsertUserIfAbsent { package, .. } => package_in(package) == Some(package),
        WriteView::SetPackage { package, .. } => package_in(package) == Some(package),
        WriteView::SetLimit { value, .. } => value matches Some(value) ==> 0 < value <= usize::MAX,
        _ => true,
    }
}

/// A user who is stored properly is read as they are stored.
pub proof fn law_users_read_back(row: UserColumns, user_id: i64, user: StoredUser)
    requires
        readable(user),
        row_holds(row, user_id, user),
    ensures
        user_in(row) == Ok::<UserView, StoreError>(
            UserView {
                telegram_id: user_id,
                enabled: user.enabled,
                package: user.package,
                limits: user.limits,
            },
        ),
{
}

/// Whatever is written properly leaves every stored user in a state that can be
/// read.
pub proof fn law_stored_users_stay_readable(tables: Tables, write: WriteView)
    requires
        forall|id: i64| #[trigger] tables.users.contains_key(id) ==> readable(tables.users[id]),
        writes_properly(write),
    ensures
        forall|id: i64| #[trigger]
            applied(tables, write).users.contains_key(id) ==> readable(
                applied(tables, write).users[id],
            ),
{
    assert forall|id: i64| #[trigger] applied(tables, write).users.contains_key(id) implies readable(
        applied(tables, write).users[id],
    ) by {
        if tables.users.contains_key(id) {
            assert(readable(tables.users[id]));
        }
    }
}

/// A limit that is set for a user can be read back.
pub proof fn law_limits_read_back(user: StoredUser, name: UserLimitName, value: UserLimitValue)
    requires
        stored_limit(value) is Some,
        value matches UserLimitValue::Value(number) ==> 0 < number <= usize::MAX,
    ensures
        ({
            let stored = stored_limit(value)->0;
            let limits = with_limit(user, name, stored).limits;
            match name {
                UserLimitName::MaxActiveJobs => stored_usize(stored, name) == Ok::<
                    Option<usize>,
                    StoreError,
                >(limits.max_active_jobs),
                UserLimitName::MaxQueuedJobs => stored_usize(stored, name) == Ok::<
                    Option<usize>,
                    StoreError,
                >(limits.max_queued_jobs),
                UserLimitName::DailyJobLimit => stored_u64(stored, name) == Ok::<
                    Option<u64>,
                    StoreError,
                >(limits.daily_job_limit),
                UserLimitName::MaxUploadSizeMb => stored_u64(stored, name) == Ok::<
                    Option<u64>,
                    StoreError,
                >(limits.max_upload_size_mb),
            }
        }),
{
}

} // verus!
