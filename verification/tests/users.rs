use endgame::commands::StatsTarget;
use endgame::policy::{
    EffectiveUserLimits, PackageLimitDefaults, PackageName, PackageTable, UserLimitName,
    UserLimitOverrides, UserLimitValue, UserPolicies,
};
use endgame::store::{AddUserOutcome, DownloadStats, GlobalStats, RemoveUserOutcome, UserRecord};
use endgame::users::{
    LimitChange, SET_LIMIT_USAGE, StatsStep, UNAUTHORIZED_TEXT, UserProfile, add_reply,
    format_download_stats, format_global_stats, format_limits, format_user_line,
    global_stats_reply, handle_add, handle_list, handle_list_packages, handle_remove,
    handle_set_limit, handle_set_package, handle_show_limits, handle_show_stats, limits_reply,
    list_users, paginate, remove_reply, resolve_user_profile, set_limit_reply, set_package_reply,
    stats_user_found, user_stats_reply, users_to_list,
};

fn package(value: &str) -> PackageName {
    PackageName::require(value).unwrap()
}

fn user(id: i64, enabled: bool, name: &str) -> UserRecord {
    UserRecord {
        telegram_id: id,
        enabled,
        package: package(name),
        limits: UserLimitOverrides::default(),
    }
}

fn policies() -> UserPolicies {
    let mut packages = PackageTable::new();
    packages.add(
        package("pro"),
        PackageLimitDefaults {
            max_active_jobs: Some(2),
            max_queued_jobs: Some(4),
            daily_job_limit: Some(9),
            max_upload_size_mb: Some(50),
        },
    );
    packages.add(package("free"), PackageLimitDefaults::default());
    UserPolicies::new(packages, package("free"), 3, 10, 100)
}

fn stats(completed: u64, failed: u64) -> DownloadStats {
    DownloadStats {
        completed_jobs: completed,
        failed_jobs: failed,
        ..DownloadStats::default()
    }
}

fn rate(completed: u64, failed: u64) -> String {
    let text = format_download_stats(stats(completed, failed));
    let (_, rate) = text.rsplit_once(": ").unwrap();
    rate.to_string()
}

#[test]
fn formats_identity_and_database_state() {
    let profile = UserProfile {
        username: Some("sample".to_string()),
        full_name: Some("Sample User".to_string()),
    };
    let user = UserRecord {
        telegram_id: 42,
        enabled: false,
        package: PackageName::require("pro").unwrap(),
        limits: UserLimitOverrides::default(),
    };
    assert_eq!(
        format_user_line(42, Some(&profile), false, Some(&user)),
        "42 — @sample — Sample User [pro] [disabled]"
    );
    assert_eq!(
        format_user_line(42, Some(&profile), true, Some(&user)),
        "42 — @sample — Sample User [superuser]"
    );
    assert_eq!(format_user_line(7, None, true, None), "7 [superuser]");
}

#[test]
fn paginates_without_dropping_users() {
    let lines = vec![
        "header".to_string(),
        "user one".to_string(),
        "user two".to_string(),
    ];
    assert_eq!(paginate(&lines, 16), vec!["header\nuser one", "user two"]);
}

#[test]
fn formats_download_statistics_and_ignores_cancelled_jobs_in_success_rate() {
    let stats = DownloadStats {
        accepted_jobs: 12,
        completed_jobs: 8,
        failed_jobs: 2,
        cancelled_jobs: 1,
        interrupted_jobs: 0,
        accepted_today: 3,
    };

    assert_eq!(
        format_download_stats(stats),
        "Accepted: 12 (3 today)\nCompleted: 8\nFailed: 2\nCancelled: 1\nInterrupted/unknown: 0\nOpen/unresolved: 1\nSuccess rate (completed vs failed): 80.0%"
    );
}

#[test]
fn pages_count_bytes_and_keep_long_lines_whole() {
    let long = "é".repeat(10);
    let lines = vec!["ab".to_string(), long.clone(), "cd".to_string()];
    assert_eq!(paginate(&lines, 5), vec!["ab".to_string(), long, "cd".to_string()]);
    assert!(paginate(&[], 5).is_empty());
}

#[test]
fn success_rates_are_those_of_doubles() {
    assert_eq!(rate(0, 0), "n/a");
    assert_eq!(rate(0, 7), "0.0%");
    assert_eq!(rate(1, 2), "33.3%");
    assert_eq!(rate(u64::MAX, u64::MAX), "100.0%");
    let mut state: u64 = 88_172_645_463_325_252;
    for _ in 0..20_000 {
        state ^= state << 13;
        state ^= state >> 7;
        state ^= state << 17;
        let completed = state >> (state % 64);
        state ^= state << 13;
        state ^= state >> 7;
        state ^= state << 17;
        let failed = state >> (state % 61);
        let decided = completed.saturating_add(failed);
        if decided > 0 {
            assert_eq!(
                rate(completed, failed),
                format!("{:.1}%", completed as f64 * 100.0 / decided as f64)
            );
        }
    }
}

#[test]
fn only_superusers_manage_users() {
    assert_eq!(
        handle_add(5, Some(9), &[1]),
        Err(UNAUTHORIZED_TEXT.to_string())
    );
    assert_eq!(handle_add(1, Some(9), &[1]), Ok(9));
    assert_eq!(
        handle_add(1, None, &[1]),
        Err("Usage: /add <user-id>".to_string())
    );
    assert_eq!(
        handle_remove(1, None, &[1]),
        Err("Usage: /remove <user-id>".to_string())
    );
    assert_eq!(handle_remove(1, Some(9), &[1]), Ok(9));
    assert_eq!(
        handle_remove(1, Some(1), &[1]),
        Err("User 1 is a superuser. Remove them from the config and restart before disabling their regular account.".to_string())
    );
    assert_eq!(handle_list(5, &[1]), Err(UNAUTHORIZED_TEXT.to_string()));
    assert_eq!(handle_list(1, &[1]), Ok(()));
}

#[test]
fn changes_of_users_are_answered() {
    assert_eq!(
        add_reply(9, &Ok(AddUserOutcome::Added), &package("free")),
        "User 9 added with package `free`."
    );
    assert_eq!(
        add_reply(9, &Ok(AddUserOutcome::Reenabled), &package("free")),
        "User 9 re-enabled."
    );
    assert_eq!(
        add_reply(9, &Err("down".to_string()), &package("free")),
        "Failed to add user 9: down"
    );
    assert_eq!(
        remove_reply(9, &Ok(RemoveUserOutcome::NotFound)),
        "User 9 does not exist."
    );
    assert_eq!(
        remove_reply(9, &Ok(RemoveUserOutcome::Disabled)),
        "User 9 disabled."
    );
}

#[test]
fn packages_are_assigned_if_they_exist() {
    let policies = policies();
    let (id, name) =
        handle_set_package(1, Some(9), Some(package("pro")), &[1], &policies).unwrap();
    assert_eq!((id, name.as_str()), (9, "pro"));
    assert_eq!(
        handle_set_package(1, Some(9), Some(package("nope")), &[1], &policies).unwrap_err(),
        "Package `nope` is not configured. Available: free, pro"
    );
    assert_eq!(
        handle_set_package(1, Some(1), Some(package("pro")), &[1], &policies).unwrap_err(),
        "Superusers use the unrestricted superuser policy."
    );
    assert_eq!(
        handle_set_package(1, Some(9), None, &[1], &policies).unwrap_err(),
        "Usage: /package <user-id> <package>"
    );
    assert_eq!(
        set_package_reply(9, &package("pro"), &Ok(true)),
        "User 9 now uses package `pro`."
    );
    assert_eq!(
        set_package_reply(9, &package("pro"), &Ok(false)),
        "User 9 does not exist. Add them first."
    );
    assert_eq!(
        handle_list_packages(&policies),
        ["Configured packages (default: `free`):\n- `free` [default]: active 3, queued 10, daily unlimited, upload 100 MiB\n- `pro`: active 2, queued 4, daily 9, upload 50 MiB"]
    );
}

#[test]
fn limits_are_shown_and_set() {
    let policies = policies();
    assert_eq!(
        handle_show_limits(1, None, &[1], &policies).unwrap_err(),
        "User 1 — superuser\nEffective limits:\n- active jobs: 3\n- queued jobs: 10\n- daily jobs: unlimited\n- upload size: 100 MiB"
    );
    assert_eq!(handle_show_limits(5, None, &[1], &policies), Ok(5));
    assert_eq!(
        handle_show_limits(5, Some(6), &[1], &policies),
        Err(UNAUTHORIZED_TEXT.to_string())
    );
    assert_eq!(
        limits_reply(5, &Ok(Some(user(5, true, "pro"))), &policies),
        "User 5 — package `pro` — enabled\nEffective limits:\n- active jobs: 2\n- queued jobs: 4\n- daily jobs: 9\n- upload size: 50 MiB"
    );
    assert_eq!(
        limits_reply(5, &Ok(Some(user(5, true, "gone"))), &policies),
        "Could not resolve limits for user 5: package `gone` is not configured"
    );
    assert_eq!(
        limits_reply(5, &Ok(None), &policies),
        "User 5 does not exist."
    );
    assert_eq!(
        limits_reply(5, &Err("down".to_string()), &policies),
        "Failed to read limits: down"
    );
    let change = LimitChange {
        user_id: Some(5),
        name: Some(UserLimitName::MaxActiveJobs),
        value: Some(UserLimitValue::Value(4)),
    };
    assert_eq!(
        handle_set_limit(1, change, &[1], &policies).unwrap_err(),
        "max_active_jobs cannot exceed the global maximum of 3"
    );
    let change = LimitChange {
        value: Some(UserLimitValue::Value(3)),
        ..change
    };
    assert_eq!(
        handle_set_limit(1, change, &[1], &policies),
        Ok((5, UserLimitName::MaxActiveJobs, UserLimitValue::Value(3)))
    );
    let change = LimitChange {
        value: None,
        ..change
    };
    assert_eq!(
        handle_set_limit(1, change, &[1], &policies).unwrap_err(),
        SET_LIMIT_USAGE
    );
    assert_eq!(
        set_limit_reply(5, UserLimitName::DailyJobLimit, UserLimitValue::Value(3), &Ok(true)),
        "daily_job_limit for user 5 set to 3."
    );
    assert_eq!(
        set_limit_reply(5, UserLimitName::DailyJobLimit, UserLimitValue::Default, &Ok(true)),
        "daily_job_limit for user 5 now uses the package default."
    );
    let limits = EffectiveUserLimits {
        max_active_jobs: 1,
        max_queued_jobs: 2,
        daily_job_limit: None,
        max_upload_bytes: 3 * 1_048_576 + 5,
    };
    assert!(
        format_limits(5, false, Some(&user(5, false, "pro")), limits)
            .starts_with("User 5 — package `pro` — disabled\n")
    );
}

#[test]
fn statistics_are_for_oneself_or_superusers() {
    assert_eq!(
        handle_show_stats(5, StatsTarget::All, &[1]),
        StatsStep::Reply(UNAUTHORIZED_TEXT.to_string())
    );
    assert_eq!(
        handle_show_stats(5, StatsTarget::User(6), &[1]),
        StatsStep::Reply(UNAUTHORIZED_TEXT.to_string())
    );
    assert_eq!(
        handle_show_stats(5, StatsTarget::Own, &[1]),
        StatsStep::ReadUser(5)
    );
    assert_eq!(
        handle_show_stats(1, StatsTarget::All, &[1]),
        StatsStep::ReadAll
    );
    assert_eq!(
        handle_show_stats(1, StatsTarget::Own, &[1]),
        StatsStep::ReadStats {
            user_id: 1,
            identity: "User 1 — superuser".to_string()
        }
    );
    assert_eq!(
        stats_user_found(5, &Ok(Some(user(5, false, "free")))),
        StatsStep::ReadStats {
            user_id: 5,
            identity: "User 5 — package `free` — disabled".to_string()
        }
    );
    assert_eq!(
        stats_user_found(5, &Ok(None)),
        StatsStep::Reply("User 5 does not exist.".to_string())
    );
    assert_eq!(
        stats_user_found(5, &Err("down".to_string())),
        StatsStep::Reply("Failed to read download statistics.".to_string())
    );
    assert!(user_stats_reply("Me", &Ok(stats(1, 1))).starts_with("Me\nAccepted: 0"));
    let global = GlobalStats {
        users: 3,
        enabled_users: 2,
        downloads: stats(1, 0),
    };
    assert!(
        format_global_stats(global)
            .starts_with("Application download stats\nUsers: 2 enabled / 3 stored\nAccepted: 0")
    );
    assert_eq!(
        global_stats_reply(&Err("down".to_string())),
        "Failed to read download statistics."
    );
}

#[test]
fn lists_hold_stored_users_and_superusers_in_order() {
    let stored = vec![user(9, true, "pro"), user(3, false, "free")];
    assert_eq!(users_to_list(&stored, &[5, 9]), [3, 5, 9]);
    let profiles = vec![(
        3,
        resolve_user_profile(&None, &["second".to_string()], "  "),
    )];
    assert_eq!(
        list_users(&stored, &[5, 9], &profiles),
        ["Configured users (3):\n3 — @second [free] [disabled]\n5 [superuser]\n9 [superuser]"]
    );
}
