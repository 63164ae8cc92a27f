use std::future::Future;

use endgame::policy::{PackageName, UserLimitName, UserLimitValue};
use endgame::store::{
    AddUserOutcome, AppStore, BOOTSTRAP_IMPORT_KEY, DAILY_USE_SQL, DownloadStatOutcome,
    DownloadStats, GLOBAL_STATS_SQL, GlobalStats, READ_USER_SQL, RemoveUserOutcome,
    ReserveUsageOutcome, SCHEMA_V1_SQL, StatsColumns, StoreWrite, USER_STATS_SQL, UserColumns,
    UserRecord, current_utc_day,
};
use turso::{Connection, Row, Value};

const NOW: i64 = 1_700_000_000;

/// A database in memory, changed and read by the statements of the library.
struct Memory {
    connection: Connection,
}

fn package(name: &str) -> PackageName {
    PackageName::parse(name).unwrap()
}

fn run(test: impl Future<Output = ()>) {
    tokio::runtime::Builder::new_current_thread()
        .enable_all()
        .build()
        .unwrap()
        .block_on(test);
}

fn values(write: &StoreWrite) -> Vec<Value> {
    match write {
        StoreWrite::InsertUser { user_id, package, now }
        | StoreWrite::InsertUserIfAbsent { user_id, package, now }
        | StoreWrite::SetPackage { user_id, package, now } => vec![
            Value::Integer(*user_id),
            Value::Text(package.as_str().to_string()),
            Value::Integer(*now),
        ],
        StoreWrite::SetLimit { user_id, value, now, .. } => vec![
            Value::Integer(*user_id),
            value.map_or(Value::Null, Value::Integer),
            Value::Integer(*now),
        ],
        StoreWrite::AddDailyUse { user_id, utc_day }
        | StoreWrite::DropDailyUse { user_id, utc_day } => {
            vec![Value::Integer(*user_id), Value::Integer(*utc_day)]
        }
        StoreWrite::SetEnabled { user_id, now, .. }
        | StoreWrite::AddAccepted { user_id, now }
        | StoreWrite::DropAccepted { user_id, now }
        | StoreWrite::AddOutcome { user_id, now, .. } => {
            vec![Value::Integer(*user_id), Value::Integer(*now)]
        }
        StoreWrite::Reconcile { now } => vec![Value::Integer(*now)],
        StoreWrite::MarkImported => vec![Value::Text(BOOTSTRAP_IMPORT_KEY.to_string())],
    }
}

fn stats(row: &Row, offset: usize) -> StatsColumns {
    StatsColumns {
        accepted_jobs: row.get(offset).unwrap(),
        completed_jobs: row.get(offset + 1).unwrap(),
        failed_jobs: row.get(offset + 2).unwrap(),
        cancelled_jobs: row.get(offset + 3).unwrap(),
        interrupted_jobs: row.get(offset + 4).unwrap(),
        accepted_today: row.get(offset + 5).unwrap(),
    }
}

impl Memory {
    async fn blank() -> Memory {
        let database = turso::Builder::new_local(":memory:").build().await.unwrap();
        Memory {
            connection: database.connect().unwrap(),
        }
    }

    async fn open() -> Memory {
        let memory = Memory::blank().await;
        memory.migrate().await;
        memory
    }

    async fn row(&self, sql: &str, values: Vec<Value>) -> Option<Row> {
        let mut rows = self.connection.query(sql, values).await.unwrap();
        rows.next().await.unwrap()
    }

    async fn number(&self, sql: &str, values: Vec<Value>) -> Option<i64> {
        self.row(sql, values).await.map(|row| row.get(0).unwrap())
    }

    async fn migrate(&self) {
        let mut version = self
            .number("PRAGMA user_version", Vec::new())
            .await
            .unwrap_or(0);
        while let Some(step) = AppStore::migrate(version).unwrap() {
            self.connection.execute_batch(step.batch).await.unwrap();
            if let Some(follow_up) = step.follow_up {
                self.connection.execute(follow_up, [NOW]).await.unwrap();
            }
            self.connection.execute(step.version_sql, ()).await.unwrap();
            version = step.next_version;
        }
    }

    async fn apply(&self, writes: &[StoreWrite]) -> u64 {
        let mut touched = 0;
        for write in writes {
            touched += self
                .connection
                .execute(write.sql(), values(write))
                .await
                .unwrap();
        }
        touched
    }

    async fn user(&self, user_id: i64) -> Option<UserRecord> {
        let row = self
            .row(READ_USER_SQL, vec![Value::Integer(user_id)])
            .await?;
        let name: String = row.get(2).unwrap();
        let columns = UserColumns {
            telegram_id: row.get(0).unwrap(),
            enabled: row.get(1).unwrap(),
            package: &name,
            max_active_jobs: row.get(3).unwrap(),
            max_queued_jobs: row.get(4).unwrap(),
            daily_job_limit: row.get(5).unwrap(),
            max_upload_size_mb: row.get(6).unwrap(),
        };
        AppStore::get_user(Some(columns)).unwrap()
    }

    async fn add(&self, user_id: i64, name: &str) -> AddUserOutcome {
        let existing = self.user(user_id).await;
        let (outcome, writes) =
            AppStore::add_user(user_id, existing.as_ref(), &package(name), NOW).unwrap();
        self.apply(&writes).await;
        outcome
    }

    async fn import(&self, allowed: &[i64], supers: &[i64]) -> usize {
        let key = Value::Text(BOOTSTRAP_IMPORT_KEY.to_string());
        let imported = self
            .row("SELECT value FROM app_meta WHERE key = ?1", vec![key])
            .await
            .is_some();
        let writes = AppStore::import_bootstrap_users(
            imported,
            allowed,
            supers,
            &package("starter"),
            &package("pro"),
            NOW,
        )
        .unwrap();
        self.apply(&writes).await;
        if imported {
            0
        } else {
            AppStore::bootstrap_users(allowed, supers).len()
        }
    }

    async fn daily_use(&self, user_id: i64) -> i64 {
        let day = Value::Integer(current_utc_day(NOW));
        self.number(DAILY_USE_SQL, vec![Value::Integer(user_id), day])
            .await
            .unwrap_or(0)
    }

    async fn reserve(&self, user_id: i64, limit: Option<u64>) -> ReserveUsageOutcome {
        let current = self.daily_use(user_id).await;
        let (outcome, writes) = AppStore::reserve_daily_job(user_id, limit, current, NOW);
        self.apply(&writes).await;
        outcome
    }

    async fn record(&self, user_id: i64, outcome: DownloadStatOutcome) {
        let write = AppStore::record_download_outcome(user_id, outcome, NOW).unwrap();
        self.apply(&[write]).await;
    }

    async fn user_stats(&self, user_id: i64) -> DownloadStats {
        let day = Value::Integer(current_utc_day(NOW));
        let row = self
            .row(USER_STATS_SQL, vec![Value::Integer(user_id), day])
            .await
            .unwrap();
        AppStore::user_stats(user_id, stats(&row, 0)).unwrap()
    }

    async fn global_stats(&self) -> GlobalStats {
        let day = Value::Integer(current_utc_day(NOW));
        let row = self.row(GLOBAL_STATS_SQL, vec![day]).await.unwrap();
        let (users, enabled) = (row.get(0).unwrap(), row.get(1).unwrap());
        AppStore::global_stats(users, enabled, stats(&row, 2)).unwrap()
    }
}

#[test]
fn migrates_v1_users_usage_and_tiers_to_packages() {
    run(async {
        let memory = Memory::blank().await;
        let connection = &memory.connection;
        connection.execute_batch(SCHEMA_V1_SQL).await.unwrap();
        connection
            .execute_batch(
                "INSERT INTO users (
                    telegram_id, enabled, tier, created_at, updated_at
                 ) VALUES (42, 1, 'paid', 1, 1);
                 INSERT INTO users (
                    telegram_id, enabled, tier, daily_job_limit, created_at, updated_at
                 ) VALUES (43, 0, 'free', 9, 1, 1);
                 INSERT INTO user_daily_usage (
                    telegram_id, utc_day, accepted_jobs
                 ) VALUES (42, 1, 3);",
            )
            .await
            .unwrap();
        connection
            .execute("PRAGMA user_version = 1", ())
            .await
            .unwrap();

        memory.migrate().await;
        assert_eq!(memory.user(42).await.unwrap().package, package("paid"));
        let stats = memory.user_stats(42).await;
        assert_eq!(stats.accepted_jobs, 3);
        assert_eq!(stats.interrupted_jobs, 3);
        assert_eq!(stats.unresolved_jobs(), 0);

        let other = memory.user(43).await.unwrap();
        assert!(!other.enabled);
        assert_eq!(other.package, package("free"));
        assert_eq!(other.limits.daily_job_limit, Some(9));
        assert_eq!(memory.user_stats(43).await, DownloadStats::default());
        let kept = vec![Value::Integer(42), Value::Integer(1)];
        assert_eq!(memory.number(DAILY_USE_SQL, kept).await, Some(3));
    });
}

#[test]
fn migrated_use_is_summed_over_the_days() {
    run(async {
        let memory = Memory::blank().await;
        let connection = &memory.connection;
        connection.execute_batch(SCHEMA_V1_SQL).await.unwrap();
        connection
            .execute_batch(
                "INSERT INTO users (
                    telegram_id, enabled, tier, created_at, updated_at
                 ) VALUES (42, 1, 'paid', 1, 1);
                 INSERT INTO user_daily_usage (
                    telegram_id, utc_day, accepted_jobs
                 ) VALUES (42, 1, 3), (42, 2, 0), (42, 5, 4);
                 PRAGMA user_version = 1;",
            )
            .await
            .unwrap();
        memory.migrate().await;
        let stats = memory.user_stats(42).await;
        assert_eq!((stats.accepted_jobs, stats.interrupted_jobs), (7, 7));
        assert_eq!(stats.completed_jobs + stats.failed_jobs, 0);
    });
}

#[test]
fn imports_bootstrap_users_once_and_ensures_new_superusers() {
    run(async {
        let memory = Memory::open().await;
        assert_eq!(memory.import(&[11, 22], &[11, 33]).await, 3);
        assert_eq!(memory.import(&[44], &[]).await, 0);
        assert_eq!(memory.user(11).await.unwrap().package, package("pro"));
        assert_eq!(memory.user(22).await.unwrap().package, package("starter"));
        for (expected, superusers) in [(1, [55]), (0, [55])] {
            let (writes, error) =
                AppStore::ensure_superusers(&superusers, &package("enterprise"), NOW);
            assert!(error.is_none());
            assert_eq!(memory.apply(&writes).await, expected);
        }
        assert_eq!(
            memory.user(55).await.unwrap().package,
            package("enterprise")
        );

        memory.migrate().await;
        assert_eq!(memory.import(&[44], &[]).await, 0);
        assert!(memory.user(44).await.is_none());
    });
}

#[test]
fn users_are_disabled_without_losing_package_or_overrides() {
    run(async {
        let memory = Memory::open().await;
        assert_eq!(memory.add(42, "starter").await, AddUserOutcome::Added);
        let user = memory.user(42).await;
        let write = AppStore::set_user_package(42, user.as_ref(), &package("pro"), NOW)
            .unwrap()
            .unwrap();
        memory.apply(&[write]).await;
        let write = AppStore::set_user_limit(
            42,
            user.as_ref(),
            UserLimitName::MaxQueuedJobs,
            UserLimitValue::Value(7),
            NOW,
        )
        .unwrap()
        .unwrap();
        memory.apply(&[write]).await;
        let (outcome, writes) =
            AppStore::remove_user(42, memory.user(42).await.as_ref(), NOW).unwrap();
        memory.apply(&writes).await;
        assert_eq!(outcome, RemoveUserOutcome::Disabled);
        assert!(!AppStore::is_user_enabled(memory.user(42).await.as_ref()));
        assert_eq!(memory.add(42, "starter").await, AddUserOutcome::Reenabled);
        let user = memory.user(42).await.unwrap();
        assert_eq!(user.package, package("pro"));
        assert_eq!(user.limits.max_queued_jobs, Some(7));
    });
}

#[test]
fn admission_and_terminal_outcomes_update_statistics() {
    run(async {
        let memory = Memory::open().await;
        memory.add(42, "free").await;
        let ReserveUsageOutcome::Reserved(_first) = memory.reserve(42, Some(2)).await else {
            panic!("first reservation should succeed");
        };
        let ReserveUsageOutcome::Reserved(second) = memory.reserve(42, Some(2)).await else {
            panic!("second reservation should succeed");
        };
        assert_eq!(
            memory.reserve(42, Some(2)).await,
            ReserveUsageOutcome::LimitReached
        );
        memory
            .apply(&AppStore::release_daily_job(second, NOW))
            .await;
        memory.record(42, DownloadStatOutcome::Completed).await;

        let stats = memory.user_stats(42).await;
        assert_eq!(stats.accepted_jobs, 1);
        assert_eq!(stats.completed_jobs, 1);
        assert_eq!(stats.accepted_today, 1);
        assert_eq!(stats.unresolved_jobs(), 0);
        assert_eq!(memory.daily_use(42).await, 1);
    });
}

#[test]
fn startup_reconciles_unfinished_jobs_and_global_stats() {
    run(async {
        let memory = Memory::open().await;
        memory.add(42, "free").await;
        memory.add(43, "pro").await;
        memory.reserve(42, None).await;
        memory.reserve(42, None).await;
        memory.record(42, DownloadStatOutcome::Failed).await;
        let write = [AppStore::reconcile_interrupted_jobs(NOW)];
        assert_eq!(memory.apply(&write).await, 1);

        let stats = memory.user_stats(42).await;
        assert_eq!(stats.failed_jobs, 1);
        assert_eq!(stats.interrupted_jobs, 1);
        assert_eq!(stats.unresolved_jobs(), 0);
        let global = memory.global_stats().await;
        assert_eq!(global.users, 2);
        assert_eq!(global.enabled_users, 2);
        assert_eq!(global.downloads.accepted_jobs, 2);

        assert_eq!(memory.apply(&write).await, 0);
        assert_eq!(memory.user_stats(42).await, stats);
    });
}
