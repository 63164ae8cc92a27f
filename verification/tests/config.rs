use endgame::config::{
    Config, DatabaseConfig, FileConfig, LegacyUserTiersConfig, config_path, read_api_hash,
    read_api_id, resolve_from_config, unparsable_text, unreadable_text,
};
use endgame::policy::{PackageLimitDefaults, PackageName};

fn config() -> FileConfig {
    FileConfig {
        superusers: vec![1],
        ..FileConfig::default()
    }
}

fn package(name: &str, limits: PackageLimitDefaults) -> (String, PackageLimitDefaults) {
    (name.to_string(), limits)
}

fn failure(config: &FileConfig) -> String {
    match config.validate() {
        Ok(_) => panic!("expected a refusal"),
        Err(message) => message,
    }
}

#[test]
fn applies_compatible_defaults_for_missing_package_keys() {
    let cfg = config();
    assert_eq!(cfg.superusers, vec![1]);
    assert!(cfg.allowed_users.is_empty());
    assert_eq!(cfg.database.path, "endgame.db");
    let packages = cfg.validate().unwrap();
    assert_eq!(packages.default_package.as_str(), "free");
    assert_eq!(packages.superuser_package.as_str(), "paid");
    assert_eq!(packages.packages.len(), 2);
    assert_eq!(cfg.download_concurrency, 2);
    assert_eq!(cfg.download_queue_capacity, 20);
    assert_eq!(cfg.max_upload_size_mb, 1900);
    assert_eq!(cfg.command_timeout_secs, 10800);
    assert_eq!(cfg.upload_timeout_secs, 7200);
    assert_eq!(cfg.job_timeout_secs, 21600);
}

#[test]
fn supports_legacy_user_tiers() {
    let cfg = FileConfig {
        user_tiers: Some(LegacyUserTiersConfig {
            free: PackageLimitDefaults {
                daily_job_limit: Some(5),
                ..PackageLimitDefaults::default()
            },
            ..LegacyUserTiersConfig::default()
        }),
        ..config()
    };
    let packages = cfg.validate().unwrap();
    assert_eq!(
        packages
            .packages
            .get(&PackageName::require("free").unwrap())
            .unwrap()
            .daily_job_limit,
        Some(5)
    );
}

#[test]
fn accepts_arbitrary_named_packages() {
    let cfg = FileConfig {
        default_package: "starter".to_string(),
        superuser_package: Some("enterprise".to_string()),
        packages: vec![
            package("enterprise", PackageLimitDefaults::default()),
            package(
                "pro-monthly",
                PackageLimitDefaults {
                    daily_job_limit: Some(50),
                    ..PackageLimitDefaults::default()
                },
            ),
            package(
                "starter",
                PackageLimitDefaults {
                    daily_job_limit: Some(5),
                    ..PackageLimitDefaults::default()
                },
            ),
        ],
        ..config()
    };
    let packages = cfg.validate().unwrap();
    assert_eq!(packages.packages.len(), 3);
    assert_eq!(packages.default_package.as_str(), "starter");
    assert_eq!(packages.superuser_package.as_str(), "enterprise");
}

#[test]
fn rejects_invalid_config_values() {
    let zero = FileConfig {
        download_queue_capacity: 0,
        ..config()
    };
    assert!(zero.validate().is_err());

    let negative_id = FileConfig {
        allowed_users: vec![-1],
        ..FileConfig::default()
    };
    assert!(negative_id.validate().is_err());

    let nobody = FileConfig::default();
    assert!(nobody.validate().is_err());

    let missing_default = FileConfig {
        packages: vec![package("starter", PackageLimitDefaults::default())],
        ..config()
    };
    assert!(missing_default.validate().is_err());
}

#[test]
fn validates_package_limits_against_global_caps() {
    let too_many_active = FileConfig {
        packages: vec![
            package("free", PackageLimitDefaults::default()),
            package(
                "paid",
                PackageLimitDefaults {
                    max_active_jobs: Some(3),
                    ..PackageLimitDefaults::default()
                },
            ),
        ],
        download_concurrency: 2,
        ..config()
    };
    assert!(too_many_active.validate().is_err());

    let zero_daily = FileConfig {
        packages: vec![
            package(
                "free",
                PackageLimitDefaults {
                    daily_job_limit: Some(0),
                    ..PackageLimitDefaults::default()
                },
            ),
            package("paid", PackageLimitDefaults::default()),
        ],
        ..config()
    };
    assert!(zero_daily.validate().is_err());
}

#[test]
fn resolves_database_paths_beside_the_config_file() {
    assert_eq!(
        resolve_from_config("/srv/endgame/config.json", "data/endgame.db"),
        "/srv/endgame/data/endgame.db"
    );
    assert_eq!(
        resolve_from_config("/srv/endgame/config.json", "/var/lib/endgame.db"),
        "/var/lib/endgame.db"
    );
}

#[test]
fn relative_config_files_lie_in_the_working_directory() {
    assert_eq!(resolve_from_config("config.json", "endgame.db"), "./endgame.db");
}

#[test]
fn refusals_say_what_is_wrong() {
    let zero = FileConfig {
        job_timeout_secs: 0,
        ..config()
    };
    assert_eq!(failure(&zero), "job_timeout_secs must be greater than zero");
    let both = FileConfig {
        packages: vec![
            package("free", PackageLimitDefaults::default()),
            package("paid", PackageLimitDefaults::default()),
        ],
        user_tiers: Some(LegacyUserTiersConfig::default()),
        ..config()
    };
    assert_eq!(
        failure(&both),
        "configure `packages` or legacy `user_tiers`, not both"
    );
}

#[test]
fn loading_puts_the_database_beside_the_file() {
    let file = FileConfig {
        allowed_users: vec![5, 7],
        database: DatabaseConfig {
            path: "data.db".to_string(),
        },
        ..config()
    };
    let loaded = match Config::load(12, "hash".to_string(), "/etc/endgame/config.json", file) {
        Ok(loaded) => loaded,
        Err(message) => panic!("{message}"),
    };
    assert_eq!(loaded.api_id, 12);
    assert_eq!(loaded.api_hash, "hash");
    assert_eq!(loaded.database_path, "/etc/endgame/data.db");
    assert_eq!(loaded.super_users, [1]);
    assert_eq!(loaded.allowed_users, [5, 7]);
    assert_eq!(loaded.default_package.as_str(), "free");
    assert_eq!(
        loaded.url_pattern.find_all("see https://a.example/x ok"),
        ["https://a.example/x"]
    );
}

#[test]
fn variables_are_checked() {
    assert_eq!(read_api_id(Some("42".to_string())), Ok(42));
    assert_eq!(
        read_api_id(Some("x".to_string())),
        Err("API_ID must be an integer".to_string())
    );
    assert!(read_api_id(None).is_err());
    assert!(read_api_hash(Some(String::new())).is_err());
    assert_eq!(read_api_hash(Some("h".to_string())), Ok("h".to_string()));
    assert_eq!(config_path(None), "config.json");
    assert_eq!(config_path(Some("a.json".to_string())), "a.json");
    assert_eq!(
        unreadable_text("c.json", "gone"),
        "could not read c.json: gone (copy config.example.json and fill in your user IDs)"
    );
    assert_eq!(unparsable_text("c.json", "bad"), "invalid c.json: bad");
}
