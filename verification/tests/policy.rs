use endgame::policy::{
    EffectiveUserLimits, MEBIBYTE, PackageLimitDefaults, PackageName, PackageTable, UserLimitName,
    UserLimitOverrides, UserLimitValue, UserPolicies, mebibytes_in_bytes,
};

fn package(value: &str) -> PackageName {
    PackageName::require(value).unwrap()
}

fn policies() -> UserPolicies {
    let mut packages = PackageTable::new();
    assert!(packages.add(
        package("free"),
        PackageLimitDefaults {
            max_active_jobs: Some(1),
            max_queued_jobs: Some(2),
            daily_job_limit: Some(5),
            max_upload_size_mb: Some(100),
        },
    ));
    assert!(packages.add(
        package("pro"),
        PackageLimitDefaults {
            max_active_jobs: Some(4),
            max_queued_jobs: None,
            daily_job_limit: None,
            max_upload_size_mb: Some(2_000),
        },
    ));
    UserPolicies::new(packages, package("free"), 3, 10, 1_900)
}

#[test]
fn package_names_are_normalized_and_validated() {
    assert_eq!(
        PackageName::parse("Pro_Annual").unwrap().as_str(),
        "pro_annual"
    );
    assert!(PackageName::parse("-invalid").is_none());
    assert!(PackageName::parse("has spaces").is_none());
    assert!(PackageName::parse("").is_none());
}

#[test]
fn resolves_arbitrary_packages_overrides_and_hard_caps() {
    assert_eq!(
        policies()
            .resolve(&package("free"), UserLimitOverrides::default())
            .unwrap(),
        EffectiveUserLimits {
            max_active_jobs: 1,
            max_queued_jobs: 2,
            daily_job_limit: Some(5),
            max_upload_bytes: 100 * MEBIBYTE,
        }
    );

    assert_eq!(
        policies()
            .resolve(
                &package("pro"),
                UserLimitOverrides {
                    max_active_jobs: Some(2),
                    max_queued_jobs: Some(30),
                    daily_job_limit: Some(50),
                    max_upload_size_mb: Some(3_000),
                },
            )
            .unwrap(),
        EffectiveUserLimits {
            max_active_jobs: 2,
            max_queued_jobs: 10,
            daily_job_limit: Some(50),
            max_upload_bytes: 1_900 * MEBIBYTE,
        }
    );
    assert!(
        policies()
            .resolve(&package("missing"), UserLimitOverrides::default())
            .is_err()
    );
}

#[test]
fn superusers_only_keep_global_safety_caps() {
    assert_eq!(
        policies().superuser_limits(),
        EffectiveUserLimits {
            max_active_jobs: 3,
            max_queued_jobs: 10,
            daily_job_limit: None,
            max_upload_bytes: 1_900 * MEBIBYTE,
        }
    );
}

#[test]
fn parses_command_friendly_limit_names() {
    assert_eq!(
        UserLimitName::parse("queue"),
        Some(UserLimitName::MaxQueuedJobs)
    );
    assert_eq!(
        UserLimitName::parse("upload_mb"),
        Some(UserLimitName::MaxUploadSizeMb)
    );
    assert_eq!(
        UserLimitValue::parse("default"),
        Some(UserLimitValue::Default)
    );
    assert_eq!(UserLimitValue::parse("12"), Some(UserLimitValue::Value(12)));
    assert_eq!(UserLimitValue::parse("0"), None);
}

#[test]
fn packages_are_kept_by_name() {
    let mut table = PackageTable::new();
    assert!(table.add(package("zeta"), PackageLimitDefaults::default()));
    assert!(table.add(package("alpha"), PackageLimitDefaults::default()));
    assert!(!table.add(package("Zeta"), PackageLimitDefaults::default()));
    let names: Vec<&str> = table
        .entries()
        .iter()
        .map(|(name, _)| name.as_str())
        .collect();
    assert_eq!(names, ["alpha", "zeta"]);
}

#[test]
fn overrides_keep_to_the_caps() {
    let policies = policies();
    let error = policies
        .validate_override(UserLimitName::MaxActiveJobs, UserLimitValue::Value(4))
        .unwrap_err();
    assert_eq!(
        error.message(),
        "max_active_jobs cannot exceed the global maximum of 3"
    );
    assert!(
        policies
            .validate_override(UserLimitName::DailyJobLimit, UserLimitValue::Value(u64::MAX))
            .is_ok()
    );
    let missing = policies
        .resolve(&package("nope"), UserLimitOverrides::default())
        .unwrap_err();
    assert_eq!(missing.message(), "package `nope` is not configured");
}

#[test]
fn zero_limits_are_refused() {
    let limits = PackageLimitDefaults {
        daily_job_limit: Some(0),
        ..PackageLimitDefaults::default()
    };
    assert_eq!(
        limits.validate("packages.free").unwrap_err().message(),
        "packages.free.daily_job_limit must be greater than zero or null"
    );
}

#[test]
fn mebibytes_saturate() {
    assert_eq!(mebibytes_in_bytes(3), 3_145_728);
    assert_eq!(mebibytes_in_bytes(u64::MAX), u64::MAX);
}
