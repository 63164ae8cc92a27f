//! The configuration: what a file may say, what it means, and what is wrong with
//! it.

use vstd::prelude::*;

use crate::links::{URL_PATTERN, UrlPattern, regex_compiles};
use crate::number::{decimal, i32_in, parse_i32, signed_decimal, write_i64, write_u64};
use crate::paths::{
    is_absolute, is_absolute_path, join_path, joined_path, parent, parent_path,
};
use crate::policy::{
    HardCaps, PackageLimitDefaults, PackageName, PackageTable, UserPolicies, invalid_package_name_text,
    limit_column, no_package_limits, package_in, zero_limit,
};
use crate::text::text_of;

verus! {

pub const DEFAULT_CONFIG_PATH: &'static str = "config.json";

/// What a configuration file says.
#[derive(Debug)]
pub struct FileConfig {
    pub superusers: Vec<i64>,
    pub allowed_users: Vec<i64>,
    pub database: DatabaseConfig,
    pub default_package: String,
    pub superuser_package: Option<String>,
    /// The packages as they are written, in the order of their names.
    pub packages: Vec<(String, PackageLimitDefaults)>,
    pub user_tiers: Option<LegacyUserTiersConfig>,
    pub download_concurrency: usize,
    pub download_queue_capacity: usize,
    pub max_upload_size_mb: usize,
    pub command_timeout_secs: usize,
    pub upload_timeout_secs: usize,
    pub job_timeout_secs: usize,
}

#[derive(Debug)]
pub struct DatabaseConfig {
    pub path: String,
}

/// The two packages that older files know.
#[derive(Clone, Copy, Debug, PartialEq, Eq, Structural)]
pub struct LegacyUserTiersConfig {
    pub free: PackageLimitDefaults,
    pub paid: PackageLimitDefaults,
}

/// The packages of a configuration that makes sense.
pub struct ResolvedPackages {
    pub packages: PackageTable,
    pub default_package: PackageName,
    pub superuser_package: PackageName,
}

impl Default for DatabaseConfig {
    fn default() -> (result: DatabaseConfig)
        ensures
            result.path@ == "endgame.db"@,
    {
        DatabaseConfig { path: "endgame.db".to_owned() }
    }
}

impl Default for LegacyUserTiersConfig {
    fn default() -> (result: LegacyUserTiersConfig)
        ensures
            result.free == no_package_limits(),
            result.paid == no_package_limits(),
    {
        LegacyUserTiersConfig {
            free: PackageLimitDefaults::default(),
            paid: PackageLimitDefaults::default(),
        }
    }
}

impl Default for FileConfig {
    fn default() -> (result: FileConfig)
        ensures
            result.superusers@.len() == 0,
            result.allowed_users@.len() == 0,
            result.database.path@ == "endgame.db"@,
            result.default_package@ == "free"@,
            result.superuser_package is None,
            result.packages@.len() == 0,
            result.user_tiers is None,
            result.download_concurrency == 2,
            result.download_queue_capacity == 20,
            result.max_upload_size_mb == 1900,
            result.command_timeout_secs == 10800,
            result.upload_timeout_secs == 7200,
            result.job_timeout_secs == 21600,
    {
        FileConfig {
            superusers: Vec::new(),
            allowed_users: Vec::new(),
            database: DatabaseConfig::default(),
            default_package: "free".to_owned(),
            superuser_package: None,
            packages: Vec::new(),
            user_tiers: None,
            download_concurrency: 2,
            download_queue_capacity: 20,
            max_upload_size_mb: 1900,
            command_timeout_secs: 10800,
            upload_timeout_secs: 7200,
            job_timeout_secs: 21600,
        }
    }
}

// ---------------------------------------------------------------------------
// What a file means
// ---------------------------------------------------------------------------

/// The setting that is zero and must not be, if there is one.
pub open spec fn zero_setting(config: FileConfig) -> Option<Seq<char>> {
    if config.download_concurrency == 0 {
        Some("download_concurrency"@)
    } else if config.download_queue_capacity == 0 {
        Some("download_queue_capacity"@)
    } else if config.max_upload_size_mb == 0 {
        Some("max_upload_size_mb"@)
    } else if config.command_timeout_secs == 0 {
        Some("command_timeout_secs"@)
    } else if config.upload_timeout_secs == 0 {
        Some("upload_timeout_secs"@)
    } else if config.job_timeout_secs == 0 {
        Some("job_timeout_secs"@)
    } else {
        None
    }
}

/// The first of the IDs that is not positive.
pub open spec fn improper_id(ids: Seq<i64>) -> Option<i64>
    decreases ids.len(),
{
    if ids.len() == 0 {
        None
    } else if ids[0] <= 0 {
        Some(ids[0])
    } else {
        improper_id(ids.skip(1))
    }
}

/// The packages as a file names them.
pub open spec fn raw_packages(config: FileConfig) -> Seq<(Seq<char>, PackageLimitDefaults)> {
    if config.packages@.len() == 0 {
        match config.user_tiers {
            Some(tiers) => seq![("free"@, tiers.free), ("paid"@, tiers.paid)],
            None => seq![("free"@, no_package_limits()), ("paid"@, no_package_limits())],
        }
    } else {
        config.packages@.map_values(
            |package: (String, PackageLimitDefaults)| (package.0@, package.1),
        )
    }
}

/// The limit of a package that exceeds its global cap, if there is one: its
/// name, and the cap.
pub open spec fn over_global(limits: PackageLimitDefaults, caps: HardCaps) -> Option<(Seq<char>, nat)> {
    if limits.max_active_jobs matches Some(value) && value > caps.active_jobs {
        Some(("max_active_jobs"@, caps.active_jobs as nat))
    } else if limits.max_queued_jobs matches Some(value) && value > caps.queued_jobs {
        Some(("max_queued_jobs"@, caps.queued_jobs as nat))
    } else if limits.max_upload_size_mb matches Some(value) && value > caps.upload_size_mb {
        Some(("max_upload_size_mb"@, caps.upload_size_mb as nat))
    } else {
        None
    }
}

/// The caps that a file sets.
pub open spec fn caps_of(config: FileConfig) -> HardCaps {
    HardCaps {
        active_jobs: config.download_concurrency,
        queued_jobs: config.download_queue_capacity,
        upload_size_mb: config.max_upload_size_mb as u64,
    }
}

/// The packages after one more, or what is wrong with it.
pub open spec fn with_package(
    packages: Map<Seq<char>, PackageLimitDefaults>,
    raw_name: Seq<char>,
    limits: PackageLimitDefaults,
    caps: HardCaps,
) -> Result<Map<Seq<char>, PackageLimitDefaults>, Seq<char>> {
    match package_in(raw_name) {
        None => Err(
            "invalid package `"@ + raw_name + "`: "@ + invalid_package_name_text(),
        ),
        Some(name) => match zero_limit(limits) {
            Some(limit) => Err(
                "packages."@ + name + "."@ + limit_column(limit)
                    + " must be greater than zero or null"@,
            ),
            None => match over_global(limits, caps) {
                Some((field, cap)) => Err(
                    "packages."@ + name + "."@ + field + " cannot exceed the global maximum of "@
                        + decimal(cap),
                ),
                None => if packages.contains_key(name) {
                    Err(
                        "package `"@ + name
                            + "` is configured more than once after normalization"@,
                    )
                } else {
                    Ok(packages.insert(name, limits))
                },
            },
        },
    }
}

/// The first `count` packages, or what is wrong with the first bad one.
pub open spec fn collected(
    raw: Seq<(Seq<char>, PackageLimitDefaults)>,
    count: nat,
    caps: HardCaps,
) -> Result<Map<Seq<char>, PackageLimitDefaults>, Seq<char>>
    decreases count,
{
    if count == 0 {
        Ok(Map::empty())
    } else {
        match collected(raw, (count - 1) as nat, caps) {
            Ok(packages) => with_package(packages, raw[count - 1].0, raw[count - 1].1, caps),
            Err(message) => Err(message),
        }
    }
}

/// The packages of a file that makes sense.
pub ghost struct PackagesView {
    pub packages: Map<Seq<char>, PackageLimitDefaults>,
    pub default_package: Seq<char>,
    pub superuser_package: Seq<char>,
}

impl View for ResolvedPackages {
    type V = PackagesView;

    open spec fn view(&self) -> PackagesView {
        PackagesView {
            packages: self.packages@,
            default_package: self.default_package@,
            superuser_package: self.superuser_package@,
        }
    }
}

/// The package that superusers are given: the one that the file names, or else
/// `paid` if there is one, or else the default.
pub open spec fn superuser_choice(
    packages: Map<Seq<char>, PackageLimitDefaults>,
    default_package: Seq<char>,
    named: Option<Seq<char>>,
) -> Result<Seq<char>, Seq<char>> {
    let chosen = match named {
        Some(text) => match package_in(text) {
            Some(name) => Ok(name),
            None => Err("invalid superuser_package: "@ + invalid_package_name_text()),
        },
        None => if packages.contains_key("paid"@) {
            Ok("paid"@)
        } else {
            Ok(default_package)
        },
    };
    match chosen {
        Ok(name) => if packages.contains_key(name) {
            Ok(name)
        } else {
            Err("superuser_package `"@ + name + "` is not defined in packages"@)
        },
        Err(message) => Err(message),
    }
}

/// The packages of a file, or what is wrong with them.
pub open spec fn packages_of(config: FileConfig) -> Result<PackagesView, Seq<char>> {
    if config.packages@.len() > 0 && config.user_tiers is Some {
        Err("configure `packages` or legacy `user_tiers`, not both"@)
    } else {
        let raw = raw_packages(config);
        match collected(raw, raw.len(), caps_of(config)) {
            Err(message) => Err(message),
            Ok(packages) => match package_in(config.default_package@) {
                None => Err("invalid default_package: "@ + invalid_package_name_text()),
                Some(default_package) => if !packages.contains_key(default_package) {
                    Err(
                        "default_package `"@ + default_package + "` is not defined in packages"@,
                    )
                } else {
                    match superuser_choice(
                        packages,
                        default_package,
                        text_of(config.superuser_package),
                    ) {
                        Ok(superuser_package) => Ok(
                            PackagesView { packages, default_package, superuser_package },
                        ),
                        Err(message) => Err(message),
                    }
                },
            },
        }
    }
}

/// What a file means, or what is wrong with it.
pub open spec fn checked(config: FileConfig) -> Result<PackagesView, Seq<char>> {
    match zero_setting(config) {
        Some(name) => Err(name + " must be greater than zero"@),
        None => match improper_id(config.superusers@ + config.allowed_users@) {
            Some(id) => Err(
                "user IDs must be positive, found "@ + signed_decimal(id as int),
            ),
            None => if config.superusers@.len() == 0 && config.allowed_users@.len() == 0 {
                Err("config must list at least one superuser or allowed user"@)
            } else if config.database.path@.len() == 0 {
                Err("database.path must not be empty"@)
            } else {
                packages_of(config)
            },
        },
    }
}

/// Whether a result is the one that is expected.
pub open spec fn resolves(
    result: Result<ResolvedPackages, String>,
    expected: Result<PackagesView, Seq<char>>,
) -> bool {
    match (result, expected) {
        (Ok(packages), Ok(view)) => packages@ == view,
        (Err(message), Err(text)) => message@ == text,
        _ => false,
    }
}

fn find_improper(ids: &Vec<i64>) -> (result: Option<i64>)
    ensures
        result == improper_id(ids@),
{
    let mut i: usize = 0;
    assert(ids@.skip(0) =~= ids@);
    while i < ids.len()
        invariant
            i <= ids@.len(),
            improper_id(ids@) == improper_id(ids@.skip(i as int)),
        decreases ids@.len() - i,
    {
        assert(ids@.skip(i as int)[0] == ids@[i as int]);
        assert(ids@.skip(i as int).skip(1) =~= ids@.skip(i + 1));
        if ids[i] <= 0 {
            return Some(ids[i]);
        }
        i = i + 1;
    }
    None
}

proof fn lemma_improper_id_of_both(one: Seq<i64>, other: Seq<i64>)
    ensures
        improper_id(one + other) == (match improper_id(one) {
            Some(id) => Some(id),
            None => improper_id(other),
        }),
    decreases one.len(),
{
    if one.len() > 0 {
        assert((one + other).skip(1) =~= one.skip(1) + other);
        if one[0] > 0 {
            lemma_improper_id_of_both(one.skip(1), other);
        }
    } else {
        assert(one + other =~= other);
    }
}

impl FileConfig {
    fn zero_name(&self) -> (result: Option<&'static str>)
        ensures
            match (result, zero_setting(*self)) {
                (Some(name), Some(expected)) => name@ == expected,
                (None, None) => true,
                _ => false,
            },
    {
        if self.download_concurrency == 0 {
            Some("download_concurrency")
        } else if self.download_queue_capacity == 0 {
            Some("download_queue_capacity")
        } else if self.max_upload_size_mb == 0 {
            Some("max_upload_size_mb")
        } else if self.command_timeout_secs == 0 {
            Some("command_timeout_secs")
        } else if self.upload_timeout_secs == 0 {
            Some("upload_timeout_secs")
        } else if self.job_timeout_secs == 0 {
            Some("job_timeout_secs")
        } else {
            None
        }
    }

    /// What the file means, or what is wrong with it.
    pub fn validate(&self) -> (result: Result<ResolvedPackages, String>)
        ensures
            resolves(result, checked(*self)),
    {
        if let Some(name) = self.zero_name() {
            return Err(name.to_owned().concat(" must be greater than zero"));
        }
        proof {
            lemma_improper_id_of_both(self.superusers@, self.allowed_users@);
        }
        let improper = match find_improper(&self.superusers) {
            Some(id) => Some(id),
            None => find_improper(&self.allowed_users),
        };
        if let Some(id) = improper {
            return Err(
                "user IDs must be positive, found ".to_owned().concat(write_i64(id).as_str()),
            );
        }
        if self.superusers.len() == 0 && self.allowed_users.len() == 0 {
            return Err("config must list at least one superuser or allowed user".to_owned());
        }
        if self.database.path.as_str().is_empty() {
            return Err("database.path must not be empty".to_owned());
        }
        self.resolve_packages()
    }

    /// Accepts limits that keep to the global caps.
    pub fn validate_package_caps(&self, path: &str, limits: PackageLimitDefaults) -> (result: Result<
        (),
        String,
    >)
        ensures
            match (result, over_global(limits, caps_of(*self))) {
                (Ok(_), None) => true,
                (Err(message), Some((field, cap))) => message@ == path@ + "."@ + field
                    + " cannot exceed the global maximum of "@ + decimal(cap),
                _ => false,
            },
    {
        let mut over: Option<(&'static str, u64)> = None;
        if let Some(value) = limits.max_upload_size_mb {
            if value > self.max_upload_size_mb as u64 {
                over = Some(("max_upload_size_mb", self.max_upload_size_mb as u64));
            }
        }
        if let Some(value) = limits.max_queued_jobs {
            if value > self.download_queue_capacity {
                over = Some(("max_queued_jobs", self.download_queue_capacity as u64));
            }
        }
        if let Some(value) = limits.max_active_jobs {
            if value > self.download_concurrency {
                over = Some(("max_active_jobs", self.download_concurrency as u64));
            }
        }
        match over {
            Some((field, cap)) => {
                let message = path.to_owned().concat(".").concat(field).concat(
                    " cannot exceed the global maximum of ",
                ).concat(write_u64(cap).as_str());
                Err(message)
            },
            None => Ok(()),
        }
    }

    fn add_package(
        &self,
        packages: &mut PackageTable,
        raw_name: &str,
        limits: PackageLimitDefaults,
    ) -> (result: Result<(), String>)
        ensures
            match (result, with_package(old(packages)@, raw_name@, limits, caps_of(*self))) {
                (Ok(_), Ok(expected)) => final(packages)@ == expected,
                (Err(message), Err(expected)) => message@ == expected,
                _ => false,
            },
    {
        let name = match PackageName::require(raw_name) {
            Ok(name) => name,
            Err(error) => {
                let message = "invalid package `".to_owned().concat(raw_name).concat("`: ").concat(
                    error.message().as_str(),
                );
                return Err(message);
            },
        };
        let path = "packages.".to_owned().concat(name.as_str());
        if let Err(error) = limits.validate(path.as_str()) {
            return Err(error.message());
        }
        if let Err(message) = self.validate_package_caps(path.as_str(), limits) {
            return Err(message);
        }
        let message = "package `".to_owned().concat(name.as_str()).concat(
            "` is configured more than once after normalization",
        );
        if packages.add(name, limits) {
            Ok(())
        } else {
            Err(message)
        }
    }

    fn collect_packages(&self) -> (result: Result<PackageTable, String>)
        ensures
            match (
                result,
                collected(raw_packages(*self), raw_packages(*self).len(), caps_of(*self)),
            ) {
                (Ok(packages), Ok(expected)) => packages@ == expected,
                (Err(message), Err(expected)) => message@ == expected,
                _ => false,
            },
    {
        let ghost raw = raw_packages(*self);
        let mut packages = PackageTable::new();
        if self.packages.len() == 0 {
            let tiers = match self.user_tiers {
                Some(tiers) => tiers,
                None => LegacyUserTiersConfig::default(),
            };
            assert(raw[0] == ("free"@, tiers.free));
            assert(raw[1] == ("paid"@, tiers.paid));
            proof {
                reveal_with_fuel(collected, 3);
            }
            if let Err(message) = self.add_package(&mut packages, "free", tiers.free) {
                return Err(message);
            }
            if let Err(message) = self.add_package(&mut packages, "paid", tiers.paid) {
                return Err(message);
            }
            return Ok(packages);
        }
        let mut i: usize = 0;
        while i < self.packages.len()
            invariant
                i <= self.packages@.len(),
                self.packages@.len() > 0,
                raw == raw_packages(*self),
                collected(raw, i as nat, caps_of(*self)) is Ok,
                packages@ == collected(raw, i as nat, caps_of(*self))->Ok_0,
            decreases self.packages@.len() - i,
        {
            assert(raw[i as int] == (self.packages@[i as int].0@, self.packages@[i as int].1));
            if let Err(message) = self.add_package(
                &mut packages,
                self.packages[i].0.as_str(),
                self.packages[i].1,
            ) {
                proof {
                    lemma_errors_stay(raw, (i + 1) as nat, raw.len(), caps_of(*self));
                }
                return Err(message);
            }
            i = i + 1;
        }
        Ok(packages)
    }

    /// The packages of the file, or what is wrong with them.
    pub fn resolve_packages(&self) -> (result: Result<ResolvedPackages, String>)
        ensures
            resolves(result, packages_of(*self)),
    {
        if self.packages.len() > 0 && self.user_tiers.is_some() {
            return Err("configure `packages` or legacy `user_tiers`, not both".to_owned());
        }
        let packages = match self.collect_packages() {
            Ok(packages) => packages,
            Err(message) => {
                return Err(message);
            },
        };
        let default_package = match PackageName::require(self.default_package.as_str()) {
            Ok(name) => name,
            Err(error) => {
                return Err(
                    "invalid default_package: ".to_owned().concat(error.message().as_str()),
                );
            },
        };
        if !packages.contains(&default_package) {
            let message = "default_package `".to_owned().concat(default_package.as_str()).concat(
                "` is not defined in packages",
            );
            return Err(message);
        }
        let superuser_package = match &self.superuser_package {
            Some(named) => match PackageName::require(named.as_str()) {
                Ok(name) => name,
                Err(error) => {
                    return Err(
                        "invalid superuser_package: ".to_owned().concat(error.message().as_str()),
                    );
                },
            },
            None => match PackageName::parse("paid") {
                Some(paid) => {
                    proof {
                        lemma_paid_is_a_name();
                    }
                    if packages.contains(&paid) {
                        paid
                    } else {
                        default_package.clone()
                    }
                },
                None => {
                    proof {
                        lemma_paid_is_a_name();
                    }
                    default_package.clone()
                },
            },
        };
        if !packages.contains(&superuser_package) {
            let message = "superuser_package `".to_owned().concat(
                superuser_package.as_str(),
            ).concat("` is not defined in packages");
            return Err(message);
        }
        Ok(ResolvedPackages { packages, default_package, superuser_package })
    }
}

proof fn lemma_paid_is_a_name()
    ensures
        package_in("paid"@) == Some("paid"@),
{
    reveal_strlit("paid");
    let text = "paid"@;
    assert(text[0] == 'p' && text[1] == 'a' && text[2] == 'i' && text[3] == 'd');
    assert(crate::text::ascii_lowered(text) =~= text);
}

/// What is wrong stays wrong, whatever comes later.
proof fn lemma_errors_stay(
    raw: Seq<(Seq<char>, PackageLimitDefaults)>,
    count: nat,
    more: nat,
    caps: HardCaps,
)
    requires
        count <= more,
        collected(raw, count, caps) is Err,
    ensures
        collected(raw, more, caps) == collected(raw, count, caps),
    decreases more - count,
{
    if count < more {
        lemma_errors_stay(raw, count, (more - 1) as nat, caps);
    }
}

// ---------------------------------------------------------------------------
// Paths
// ---------------------------------------------------------------------------

/// `value` seen from the directory of the configuration file.
pub open spec fn beside_config(config_path: Seq<char>, value: Seq<char>) -> Seq<char> {
    if is_absolute_path(value) {
        value
    } else {
        match parent_path(config_path) {
            Some(directory) if directory.len() > 0 => joined_path(directory, value),
            _ => joined_path("."@, value),
        }
    }
}

pub fn resolve_from_config(config_path: &str, value: &str) -> (result: String)
    ensures
        result@ == beside_config(config_path@, value@),
{
    if is_absolute(value) {
        return value.to_owned();
    }
    match parent(config_path) {
        Some(directory) => if directory.as_str().is_empty() {
            join_path(".", value)
        } else {
            join_path(directory.as_str(), value)
        },
        None => join_path(".", value),
    }
}

// ---------------------------------------------------------------------------
// The whole configuration
// ---------------------------------------------------------------------------

/// Everything that is configured.
pub struct Config {
    pub api_id: i32,
    pub api_hash: String,
    pub super_users: Vec<i64>,
    pub allowed_users: Vec<i64>,
    pub database_path: String,
    pub user_policies: UserPolicies,
    pub default_package: PackageName,
    pub superuser_package: PackageName,
    pub url_pattern: UrlPattern,
    pub download_concurrency: usize,
    pub download_queue_capacity: usize,
    pub max_upload_size_mb: usize,
    pub command_timeout_secs: usize,
    pub upload_timeout_secs: usize,
    pub job_timeout_secs: usize,
}

/// Reads the API ID out of its variable.
pub fn read_api_id(variable: Option<String>) -> (result: Result<i32, String>)
    ensures
        match text_of(variable) {
            Some(text) if text.len() > 0 => match (result, i32_in(text)) {
                (Ok(id), Some(expected)) => id == expected,
                (Err(message), None) => message@ == "API_ID must be an integer"@,
                _ => false,
            },
            _ => match result {
                Ok(_) => false,
                Err(message) => message@ == "API ID must be a non-empty integer or string"@,
            },
        },
{
    if let Some(text) = variable {
        if !text.as_str().is_empty() {
            return match parse_i32(text.as_str()) {
                Some(id) => Ok(id),
                None => Err("API_ID must be an integer".to_owned()),
            };
        }
    }
    Err("API ID must be a non-empty integer or string".to_owned())
}

/// Reads the API hash out of its variable.
pub fn read_api_hash(variable: Option<String>) -> (result: Result<String, String>)
    ensures
        match text_of(variable) {
            Some(text) if text.len() > 0 => match result {
                Ok(hash) => hash@ == text,
                Err(_) => false,
            },
            _ => match result {
                Ok(_) => false,
                Err(message) => message@ == "API Hash must be a non-empty string"@,
            },
        },
{
    if let Some(text) = variable {
        if !text.as_str().is_empty() {
            return Ok(text);
        }
    }
    Err("API Hash must be a non-empty string".to_owned())
}

/// Where the configuration file lies.
pub fn config_path(variable: Option<String>) -> (result: String)
    ensures
        result@ == (match text_of(variable) {
            Some(text) if text.len() > 0 => text,
            _ => DEFAULT_CONFIG_PATH@,
        }),
{
    if let Some(text) = variable {
        if !text.as_str().is_empty() {
            return text;
        }
    }
    DEFAULT_CONFIG_PATH.to_owned()
}

/// Why the configuration file could not be read.
pub fn unreadable_text(path: &str, error: &str) -> (result: String)
    ensures
        result@ == "could not read "@ + path@ + ": "@ + error@
            + " (copy config.example.json and fill in your user IDs)"@,
{
    "could not read ".to_owned().concat(path).concat(": ").concat(error).concat(
        " (copy config.example.json and fill in your user IDs)",
    )
}

/// Why the configuration file could not be understood.
pub fn unparsable_text(path: &str, error: &str) -> (result: String)
    ensures
        result@ == "invalid "@ + path@ + ": "@ + error@,
{
    "invalid ".to_owned().concat(path).concat(": ").concat(error)
}

impl Config {
    /// Everything that the configuration file at `config_path` configures, or
    /// what is wrong with it.
    pub fn load(api_id: i32, api_hash: String, config_path: &str, file: FileConfig) -> (result: Result<
        Config,
        String,
    >)
        ensures
            match (result, checked(file)) {
                (Ok(config), Ok(packages)) => {
                    &&& regex_compiles(URL_PATTERN@)
                    &&& config.api_id == api_id
                    &&& config.api_hash == api_hash
                    &&& config.super_users == file.superusers
                    &&& config.allowed_users == file.allowed_users
                    &&& config.database_path@ == beside_config(config_path@, file.database.path@)
                    &&& config.user_policies.table() == packages.packages
                    &&& config.user_policies.default_name() == packages.default_package
                    &&& config.user_policies.caps() == caps_of(file)
                    &&& config.default_package@ == packages.default_package
                    &&& config.superuser_package@ == packages.superuser_package
                    &&& config.url_pattern@ == URL_PATTERN@
                    &&& config.download_concurrency == file.download_concurrency
                    &&& config.download_queue_capacity == file.download_queue_capacity
                    &&& config.max_upload_size_mb == file.max_upload_size_mb
                    &&& config.command_timeout_secs == file.command_timeout_secs
                    &&& config.upload_timeout_secs == file.upload_timeout_secs
                    &&& config.job_timeout_secs == file.job_timeout_secs
                },
                (Err(message), Err(expected)) => message@ == expected,
                (Err(message), Ok(_)) => !regex_compiles(URL_PATTERN@) && message@
                    == "the URL pattern does not compile"@,
                _ => false,
            },
    {
        let resolved = match file.validate() {
            Ok(resolved) => resolved,
            Err(message) => {
                return Err(message);
            },
        };
        let database_path = resolve_from_config(config_path, file.database.path.as_str());
        let url_pattern = match UrlPattern::new(URL_PATTERN) {
            Some(pattern) => pattern,
            None => {
                return Err("the URL pattern does not compile".to_owned());
            },
        };
        let policy_default = resolved.default_package.clone();
        let user_policies = UserPolicies::new(
            resolved.packages,
            policy_default,
            file.download_concurrency,
            file.download_queue_capacity,
            file.max_upload_size_mb as u64,
        );
        Ok(
            Config {
                api_id,
                api_hash,
                super_users: file.superusers,
                allowed_users: file.allowed_users,
                database_path,
                user_policies,
                default_package: resolved.default_package,
                superuser_package: resolved.superuser_package,
                url_pattern,
                download_concurrency: file.download_concurrency,
                download_queue_capacity: file.download_queue_capacity,
                max_upload_size_mb: file.max_upload_size_mb,
                command_timeout_secs: file.command_timeout_secs,
                upload_timeout_secs: file.upload_timeout_secs,
                job_timeout_secs: file.job_timeout_secs,
            },
        )
    }
}

// ---------------------------------------------------------------------------
// Laws
// ---------------------------------------------------------------------------

/// In a configuration that makes sense the default package and that of the
/// superusers are configured, and every user ID is positive.
pub proof fn law_checked_configurations_are_consistent(config: FileConfig)
    requires
        checked(config) is Ok,
    ensures
        ({
            let packages = checked(config)->Ok_0;
            &&& packages.packages.contains_key(packages.default_package)
            &&& packages.packages.contains_key(packages.superuser_package)
        }),
        forall|i: int|
            0 <= i < config.superusers@.len() ==> #[trigger] config.superusers@[i] > 0,
        forall|i: int|
            0 <= i < config.allowed_users@.len() ==> #[trigger] config.allowed_users@[i] > 0,
        config.superusers@.len() + config.allowed_users@.len() > 0,
        config.download_concurrency > 0,
        config.download_queue_capacity > 0,
{
    lemma_improper_id_of_both(config.superusers@, config.allowed_users@);
    lemma_proper_ids(config.superusers@);
    lemma_proper_ids(config.allowed_users@);
}

proof fn lemma_proper_ids(ids: Seq<i64>)
    requires
        improper_id(ids) is None,
    ensures
        forall|i: int| 0 <= i < ids.len() ==> #[trigger] ids[i] > 0,
    decreases ids.len(),
{
    if ids.len() > 0 {
        lemma_proper_ids(ids.skip(1));
        assert forall|i: int| 0 <= i < ids.len() implies #[trigger] ids[i] > 0 by {
            if i > 0 {
                assert(ids[i] == ids.skip(1)[i - 1]);
            }
        }
    }
}

/// Every package of a configuration that makes sense has limits that are
/// positive and keep to the global caps.
pub proof fn law_package_limits_keep_to_the_caps(
    raw: Seq<(Seq<char>, PackageLimitDefaults)>,
    count: nat,
    caps: HardCaps,
    name: Seq<char>,
)
    requires
        count <= raw.len(),
        collected(raw, count, caps) is Ok,
        collected(raw, count, caps)->Ok_0.contains_key(name),
    ensures
        zero_limit(collected(raw, count, caps)->Ok_0[name]) is None,
        over_global(collected(raw, count, caps)->Ok_0[name], caps) is None,
    decreases count,
{
    if count > 0 {
        let before = collected(raw, (count - 1) as nat, caps);
        let added = package_in(raw[count - 1].0)->0;
        if name != added {
            law_package_limits_keep_to_the_caps(raw, (count - 1) as nat, caps, name);
        }
    }
}

/// Relative paths are resolved beside the configuration file, absolute ones are
/// kept.
pub proof fn law_database_paths_are_beside_the_config(config_path: Seq<char>, value: Seq<char>)
    ensures
        is_absolute_path(value) ==> beside_config(config_path, value) == value,
        !is_absolute_path(value) ==> value.is_suffix_of(beside_config(config_path, value)),
{
    reveal_strlit(".");
    if !is_absolute_path(value) {
        let directory = match parent_path(config_path) {
            Some(directory) if directory.len() > 0 => directory,
            _ => "."@,
        };
        let whole = joined_path(directory, value);
        assert(whole.skip(whole.len() - value.len()) =~= value);
    }
}

} // verus!
