use endgame::admission::{
    AdmissionStep, CancelStep, DATABASE_FAILURE_TEXT, MAX_HANDLER_TASKS, REMOVED_ACCOUNT_TEXT,
    RetryStep, UNKNOWN_PACKAGE_TEXT, admission_reserved, admission_user_found, admit_download,
    cancel_step, has_handler_slot, is_heard, needs_release, retry_step, sender_of,
};
use endgame::jobs::queue::QueueReply;
use endgame::policy::{
    PackageLimitDefaults, PackageName, PackageTable, UserLimitName, UserLimitOverrides,
    UserLimitValue, UserPolicies,
};
use endgame::store::{
    AddUserOutcome, AppStore, DownloadStatOutcome, DownloadStats, RemoveUserOutcome,
    ReserveUsageOutcome, SchemaStep, StatsColumns, StoreError, StoreField, StoreWrite,
    UsageReservation, UserColumns, UserRecord, current_utc_day, sidecar_path, unix_timestamp,
    user_from_row,
};
use endgame::telegram::allowed_users::{AddOutcome, AllowedUsers, RemoveOutcome};

fn package(value: &str) -> PackageName {
    PackageName::require(value).unwrap()
}

fn user(enabled: bool) -> UserRecord {
    UserRecord {
        telegram_id: 5,
        enabled,
        package: package("free"),
        limits: UserLimitOverrides::default(),
    }
}

fn row(package: &str) -> UserColumns<'_> {
    UserColumns {
        telegram_id: 5,
        enabled: 1,
        package,
        max_active_jobs: None,
        max_queued_jobs: Some(3),
        daily_job_limit: None,
        max_upload_size_mb: Some(10),
    }
}

fn stats_row() -> StatsColumns {
    StatsColumns {
        accepted_jobs: 6,
        completed_jobs: 3,
        failed_jobs: 1,
        cancelled_jobs: 1,
        interrupted_jobs: 0,
        accepted_today: 2,
    }
}

fn policies() -> UserPolicies {
    let mut packages = PackageTable::new();
    packages.add(
        package("free"),
        PackageLimitDefaults {
            daily_job_limit: Some(2),
            ..PackageLimitDefaults::default()
        },
    );
    UserPolicies::new(packages, package("free"), 3, 10, 100)
}

#[test]
fn rows_are_checked() {
    let user = user_from_row(row("Pro")).unwrap();
    assert_eq!(user.package.as_str(), "pro");
    assert_eq!(user.limits.max_queued_jobs, Some(3));
    assert_eq!(
        user_from_row(row("not a name")),
        Err(StoreError::InvalidPackage)
    );
    let mut bad = row("free");
    bad.enabled = 2;
    assert_eq!(user_from_row(bad), Err(StoreError::InvalidEnabled));
    let mut bad = row("free");
    bad.daily_job_limit = Some(0);
    let error = user_from_row(bad).unwrap_err();
    assert_eq!(
        error.message(),
        "database contains an invalid daily_job_limit"
    );
    assert_eq!(AppStore::get_user(None), Ok(None));
    assert_eq!(
        AppStore::list_users(&[row("free"), row("?"), row("!")]),
        Err(StoreError::InvalidPackage)
    );
    assert_eq!(AppStore::list_users(&[row("free")]).unwrap().len(), 1);
}

#[test]
fn statistics_are_read_and_summed_up() {
    let stats = AppStore::user_stats(5, stats_row()).unwrap();
    assert_eq!(stats.unresolved_jobs(), 1);
    assert_eq!(
        AppStore::user_stats(0, stats_row()),
        Err(StoreError::InvalidUserId)
    );
    let mut bad = stats_row();
    bad.failed_jobs = -1;
    assert_eq!(
        AppStore::user_stats(5, bad),
        Err(StoreError::InvalidField(StoreField::FailedJobs))
    );
    assert_eq!(
        AppStore::global_stats(4, -1, stats_row()),
        Err(StoreError::InvalidField(StoreField::EnabledUsers))
    );
    assert_eq!(AppStore::global_stats(4, 3, stats_row()).unwrap().users, 4);
    let more = DownloadStats {
        completed_jobs: 9,
        ..stats
    };
    assert_eq!(more.unresolved_jobs(), 0);
}

#[test]
fn users_are_disabled_and_enabled_again() {
    let (outcome, writes) = AppStore::add_user(5, None, &package("free"), 7).unwrap();
    assert_eq!(outcome, AddUserOutcome::Added);
    assert!(matches!(
        writes.as_slice(),
        [StoreWrite::InsertUser { user_id: 5, now: 7, .. }]
    ));
    let (outcome, writes) =
        AppStore::add_user(5, Some(&user(false)), &package("free"), 7).unwrap();
    assert_eq!(outcome, AddUserOutcome::Reenabled);
    assert!(matches!(
        writes.as_slice(),
        [StoreWrite::SetEnabled { enabled: true, .. }]
    ));
    let (outcome, writes) = AppStore::add_user(5, Some(&user(true)), &package("free"), 7).unwrap();
    assert_eq!(outcome, AddUserOutcome::AlreadyEnabled);
    assert!(writes.is_empty());
    let (outcome, writes) = AppStore::remove_user(5, Some(&user(true)), 7).unwrap();
    assert_eq!(outcome, RemoveUserOutcome::Disabled);
    assert_eq!(writes.len(), 1);
    assert_eq!(
        AppStore::remove_user(5, None, 7).unwrap().0,
        RemoveUserOutcome::NotFound
    );
    assert!(AppStore::remove_user(-5, None, 7).is_err());
    assert!(AppStore::is_user_enabled(Some(&user(true))));
    assert!(!AppStore::is_user_enabled(Some(&user(false))));
    assert!(!AppStore::is_user_enabled(None));
}

#[test]
fn limits_and_packages_are_written_for_stored_users() {
    assert!(
        AppStore::set_user_package(5, None, &package("pro"), 1)
            .unwrap()
            .is_none()
    );
    let write = AppStore::set_user_limit(
        5,
        Some(&user(true)),
        UserLimitName::DailyJobLimit,
        UserLimitValue::Value(4),
        1,
    )
    .unwrap()
    .unwrap();
    assert_eq!(
        write.sql(),
        "UPDATE users SET daily_job_limit = ?2, updated_at = ?3 WHERE telegram_id = ?1"
    );
    assert!(matches!(
        AppStore::set_user_limit(
            5,
            Some(&user(true)),
            UserLimitName::DailyJobLimit,
            UserLimitValue::Value(u64::MAX),
            1,
        ),
        Err(StoreError::LimitTooLarge)
    ));
}

#[test]
fn daily_limits_are_reserved_and_released() {
    let (outcome, writes) = AppStore::reserve_daily_job(5, Some(2), 1, 86_400 * 3 + 5);
    let reservation = UsageReservation {
        user_id: 5,
        utc_day: 3,
    };
    assert_eq!(outcome, ReserveUsageOutcome::Reserved(reservation));
    assert_eq!(writes.len(), 2);
    let (outcome, writes) = AppStore::reserve_daily_job(5, Some(2), 2, 5);
    assert_eq!(outcome, ReserveUsageOutcome::LimitReached);
    assert!(writes.is_empty());
    assert_eq!(
        AppStore::reserve_daily_job(5, None, i64::MAX, 5).1.len(),
        2
    );
    assert!(matches!(
        AppStore::release_daily_job(reservation, 9).as_slice(),
        [
            StoreWrite::DropDailyUse { user_id: 5, utc_day: 3 },
            StoreWrite::DropAccepted { user_id: 5, now: 9 }
        ]
    ));
}

#[test]
fn bootstrap_users_are_imported_once() {
    let writes = AppStore::import_bootstrap_users(
        false,
        &[9, 3, 9],
        &[3],
        &package("free"),
        &package("paid"),
        1,
    )
    .unwrap();
    let imported: Vec<(i64, &str)> = writes
        .iter()
        .filter_map(|write| match write {
            StoreWrite::InsertUserIfAbsent { user_id, package, .. } => {
                Some((*user_id, package.as_str()))
            }
            _ => None,
        })
        .collect();
    assert_eq!(imported, [(3, "paid"), (9, "free")]);
    assert!(matches!(writes.last(), Some(StoreWrite::MarkImported)));
    assert!(
        AppStore::import_bootstrap_users(true, &[9], &[3], &package("free"), &package("paid"), 1)
            .unwrap()
            .is_empty()
    );
    assert!(matches!(
        AppStore::import_bootstrap_users(false, &[-9], &[], &package("free"), &package("paid"), 1),
        Err(StoreError::InvalidUserId)
    ));
    let (writes, error) = AppStore::ensure_superusers(&[4, 0, 5], &package("paid"), 1);
    assert_eq!(writes.len(), 1);
    assert_eq!(error, Some(StoreError::InvalidUserId));
}

#[test]
fn outcomes_are_counted_in_their_column() {
    let write = AppStore::record_download_outcome(5, DownloadStatOutcome::Failed, 1).unwrap();
    assert!(write.sql().contains("failed_jobs = failed_jobs + 1"));
    assert!(AppStore::record_download_outcome(0, DownloadStatOutcome::Failed, 1).is_err());
    assert!(
        AppStore::reconcile_interrupted_jobs(1)
            .sql()
            .contains("interrupted_jobs")
    );
}

#[test]
fn schemas_migrate_step_by_step() {
    let step = AppStore::migrate(0).unwrap().unwrap();
    assert_eq!(step.step, SchemaStep::CreateTables);
    assert_eq!(step.next_version, 1);
    assert!(step.batch.contains("CREATE TABLE users"));
    assert!(step.follow_up.is_none());
    let step = AppStore::migrate(1).unwrap().unwrap();
    assert_eq!(step.step, SchemaStep::TiersToPackages);
    assert_eq!(step.version_sql, "PRAGMA user_version = 2");
    assert!(step.follow_up.is_some());
    assert!(AppStore::migrate(2).unwrap().is_none());
    assert_eq!(
        AppStore::migrate(3).err().unwrap().message(),
        "database schema version 3 is newer than supported version 2"
    );
    assert_eq!(
        AppStore::migrate(-1).err().unwrap(),
        StoreError::NoMigration(-1)
    );
}

#[test]
fn database_files_are_listed() {
    assert_eq!(
        AppStore::open("/tmp/a.db").files(),
        [
            "/tmp/a.db",
            "/tmp/a.db-journal",
            "/tmp/a.db-shm",
            "/tmp/a.db-tshm",
            "/tmp/a.db-wal"
        ]
    );
    assert!(AppStore::open(":memory:").files().is_empty());
    assert_eq!(sidecar_path("a", "-wal"), "a-wal");
    assert_eq!(current_utc_day(86_399), 0);
    assert_eq!(current_utc_day(86_400), 1);
    assert_eq!(unix_timestamp(7), Ok(7));
    assert_eq!(unix_timestamp(u64::MAX), Err(StoreError::ClockOutOfRange));
}

#[test]
fn allowed_users_change_with_the_config() {
    let mut users = AllowedUsers::new(&[11], "/srv/config.json");
    assert_eq!(users.add(22), Ok(AddOutcome::Added));
    assert_eq!(users.add(22), Ok(AddOutcome::AlreadyAllowed));
    assert_eq!(users.list(), [11, 22]);
    assert_eq!(users.add(0), Err("user ID must be positive".to_string()));
    assert_eq!(users.remove(22), Ok(RemoveOutcome::Removed));
    assert!(!users.contains(22));
    assert_eq!(users.remove(22), Ok(RemoveOutcome::NotAllowed));
    users.undo_remove(22);
    assert!(users.contains(22));
    users.undo_add(22);
    assert_eq!(users.list(), [11]);
}

#[test]
fn rewriting_leaves_other_config_keys_alone() {
    let mut users = AllowedUsers::new(&[], "/srv/config.json");
    users.add(22).unwrap();
    users.add(3).unwrap();
    let content = r#"{"superusers": [11], "allowed_users": [], "download_concurrency": 4}"#;
    let text = users.persist(&Ok(content.to_string())).unwrap();
    assert!(text.ends_with("}\n"));
    let config: serde_json::Value = serde_json::from_str(&text).unwrap();
    assert_eq!(config["superusers"][0].as_i64(), Some(11));
    assert_eq!(config["allowed_users"][0].as_i64(), Some(3));
    assert_eq!(config["allowed_users"][1].as_i64(), Some(22));
    assert_eq!(config["download_concurrency"].as_i64(), Some(4));
    assert!(text.contains("\n  \"allowed_users\": [\n    3,\n    22\n  ]"));
    let added = users.persist(&Ok("{}".to_string())).unwrap();
    assert!(added.contains("allowed_users"));
}

#[test]
fn unfit_config_files_are_refused() {
    let users = AllowedUsers::new(&[11], "/srv/config.json");
    assert_eq!(
        users.persist(&Ok("[1, 2, 3]".to_string())),
        Err("/srv/config.json must contain a JSON object".to_string())
    );
    assert!(
        users
            .persist(&Ok("{".to_string()))
            .unwrap_err()
            .starts_with("invalid /srv/config.json: ")
    );
    assert_eq!(
        users.persist(&Err("gone".to_string())),
        Err("could not read /srv/config.json: gone".to_string())
    );
    assert_eq!(
        users.temporary_path(171),
        "/srv/config.tmp-00000000000000ab"
    );
    assert_ne!(users.random_temporary_path(), users.random_temporary_path());
}

#[test]
fn only_private_incoming_messages_are_heard() {
    assert_eq!(sender_of(false, true, Some(5)), Some(5));
    assert_eq!(sender_of(true, true, Some(5)), None);
    assert_eq!(sender_of(false, false, Some(5)), None);
    assert!(is_heard(true, &Err("down".to_string())));
    assert!(is_heard(false, &Ok(true)));
    assert!(!is_heard(false, &Ok(false)));
    assert!(!is_heard(false, &Err("down".to_string())));
}

#[test]
fn downloads_are_admitted_within_limits() {
    let policies = policies();
    let AdmissionStep::Reserve(limits) = admit_download(true, &policies) else {
        panic!("expected a reservation");
    };
    assert_eq!(limits.daily_job_limit, None);
    assert!(matches!(
        admit_download(false, &policies),
        AdmissionStep::ReadUser
    ));
    let AdmissionStep::Reserve(limits) = admission_user_found(&Ok(Some(user(true))), &policies)
    else {
        panic!("expected a reservation");
    };
    assert_eq!(limits.daily_job_limit, Some(2));
    assert!(matches!(
        admission_user_found(&Ok(Some(user(false))), &policies),
        AdmissionStep::Reply(REMOVED_ACCOUNT_TEXT)
    ));
    assert!(matches!(
        admission_user_found(&Ok(None), &policies),
        AdmissionStep::Reply(REMOVED_ACCOUNT_TEXT)
    ));
    assert!(matches!(
        admission_user_found(&Err("down".to_string()), &policies),
        AdmissionStep::Reply(DATABASE_FAILURE_TEXT)
    ));
    let mut elsewhere = user(true);
    elsewhere.package = package("gone");
    assert!(matches!(
        admission_user_found(&Ok(Some(elsewhere)), &policies),
        AdmissionStep::Reply(UNKNOWN_PACKAGE_TEXT)
    ));
    assert_eq!(
        admission_reserved(&Ok(ReserveUsageOutcome::LimitReached), limits),
        Err("You have reached your daily download limit of 2. Try again tomorrow (UTC).".to_string())
    );
    assert_eq!(
        admission_reserved(&Err("down".to_string()), limits),
        Err(DATABASE_FAILURE_TEXT.to_string())
    );
    assert!(needs_release(&QueueReply::Silent));
}

#[test]
fn replies_name_their_job() {
    assert!(matches!(cancel_step(Some(4), None), CancelStep::Job(4)));
    assert!(matches!(
        cancel_step(None, Some(9)),
        CancelStep::Replied(9)
    ));
    assert!(matches!(cancel_step(None, None), CancelStep::Reply(_)));
    assert!(matches!(retry_step(0, Some(9)), RetryStep::Replied(9)));
    assert!(matches!(retry_step(0, None), RetryStep::Reply(_)));
    assert!(matches!(
        retry_step(MAX_HANDLER_TASKS, Some(9)),
        RetryStep::Skip
    ));
    assert!(has_handler_slot(MAX_HANDLER_TASKS - 1));
    assert!(!has_handler_slot(MAX_HANDLER_TASKS));
}
