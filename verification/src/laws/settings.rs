//! What a configuration means, and which cookies are taken.

use vstd::prelude::*;

use crate::config::{
    FileConfig, PackagesView, caps_of, checked, collected, improper_id, raw_packages, with_package,
    zero_setting,
};
use crate::cookies::{
    CookieError, CookieStepView, after_command, cookie_fields, cookie_step, first_malformed,
    has_cookie, is_malformed, is_remark, normalized, proper_line, proper_text,
};
use crate::laws::readings::{is_blank, is_tight, law_trimming_takes_off_white_space};
use crate::number::{decimal, signed_decimal};
use crate::policy::{HardCaps, PackageLimitDefaults, package_in};
use crate::text::{is_white_space, is_word, joined, lemma_tabbed_words, lines_of, trimmed, words_of};
use crate::utils::{cleaned_line, cleaned_lines};

verus! {

// ---------------------------------------------------------------------------
// Configurations
// ---------------------------------------------------------------------------

/// Whether the limits of a package are proper: none is zero, and none exceeds
/// what the whole application may do.
pub open spec fn is_proper(limits: PackageLimitDefaults, caps: HardCaps) -> bool {
    &&& limits.max_active_jobs matches Some(value) ==> 0 < value <= caps.active_jobs
    &&& limits.max_queued_jobs matches Some(value) ==> 0 < value <= caps.queued_jobs
    &&& limits.daily_job_limit matches Some(value) ==> 0 < value
    &&& limits.max_upload_size_mb matches Some(value) ==> 0 < value <= caps.upload_size_mb
}

/// Whether packages can be told apart, and each is proper.
pub open spec fn are_proper(
    packages: Seq<(Seq<char>, PackageLimitDefaults)>,
    count: nat,
    caps: HardCaps,
) -> bool {
    &&& forall|i: int|
        0 <= i < count ==> package_in((#[trigger] packages[i]).0) is Some && is_proper(
            packages[i].1,
            caps,
        )
    &&& forall|i: int, j: int|
        0 <= i < j < count ==> package_in((#[trigger] packages[i]).0) != package_in(
            (#[trigger] packages[j]).0,
        )
}

/// Whether a package is one of those named.
pub open spec fn names_one(
    packages: Seq<(Seq<char>, PackageLimitDefaults)>,
    count: nat,
    name: Seq<char>,
) -> bool {
    exists|i: int| 0 <= i < count && package_in((#[trigger] packages[i]).0) == Some(name)
}

/// Packages are taken if each is proper and no two have one name; then all of
/// them are there with the limits that they were given, and no others.
pub proof fn law_proper_packages_are_taken(
    packages: Seq<(Seq<char>, PackageLimitDefaults)>,
    count: nat,
    caps: HardCaps,
)
    requires
        count <= packages.len(),
    ensures
        collected(packages, count, caps) is Ok <==> are_proper(packages, count, caps),
        collected(packages, count, caps) matches Ok(table) ==> {
            &&& forall|name: Seq<char>| #[trigger]
                table.contains_key(name) <==> names_one(packages, count, name)
            &&& forall|i: int|
                0 <= i < count ==> table[package_in((#[trigger] packages[i]).0)->0]
                    == packages[i].1
        },
    decreases count,
{
    if count > 0 {
        let fewer = (count - 1) as nat;
        law_proper_packages_are_taken(packages, fewer, caps);
        let last = packages[count - 1];
        match collected(packages, fewer, caps) {
            Ok(table) => {
                assert(collected(packages, count, caps) == with_package(
                    table,
                    last.0,
                    last.1,
                    caps,
                ));
                if let Some(name) = package_in(last.0) {
                    if table.contains_key(name) {
                        assert(names_one(packages, fewer, name));
                        let i = choose|i: int|
                            0 <= i < fewer && package_in((#[trigger] packages[i]).0) == Some(name);
                        assert(package_in(packages[i].0) == package_in(packages[count - 1].0));
                        assert(!are_proper(packages, count, caps));
                    } else {
                        assert forall|i: int, j: int| 0 <= i < j < count implies package_in(
                            (#[trigger] packages[i]).0,
                        ) != package_in((#[trigger] packages[j]).0) by {
                            if j == count - 1 && package_in(packages[i].0) == Some(name) {
                                assert(names_one(packages, fewer, name));
                            }
                        }
                        if is_proper(last.1, caps) {
                            assert(are_proper(packages, count, caps));
                            let now = table.insert(name, last.1);
                            assert forall|other: Seq<char>| #[trigger]
                                now.contains_key(other) <==> names_one(
                                    packages,
                                    count,
                                    other,
                                ) by {
                                if other == name {
                                    assert(package_in(packages[count - 1].0) == Some(other));
                                } else if names_one(packages, count, other) {
                                    let i = choose|i: int|
                                        0 <= i < count && package_in((#[trigger] packages[i]).0)
                                            == Some(other);
                                    assert(i < fewer);
                                    assert(names_one(packages, fewer, other));
                                } else if table.contains_key(other) {
                                    assert(names_one(packages, fewer, other));
                                    let i = choose|i: int|
                                        0 <= i < fewer && package_in((#[trigger] packages[i]).0)
                                            == Some(other);
                                    assert(package_in(packages[i].0) == Some(other));
                                }
                            }
                        } else {
                            assert(!is_proper(packages[count - 1].1, caps));
                        }
                    }
                } else {
                    assert(package_in(packages[count - 1].0) is None);
                }
            },
            Err(_) => {
                assert(!are_proper(packages, fewer, caps));
                if are_proper(packages, count, caps) {
                    assert(are_proper(packages, fewer, caps));
                }
            },
        }
    }
}

proof fn lemma_positive_ids(ids: Seq<i64>)
    ensures
        improper_id(ids) is None <==> forall|i: int| 0 <= i < ids.len() ==> #[trigger] ids[i] > 0,
        improper_id(ids) matches Some(id) ==> id <= 0 && ids.contains(id),
    decreases ids.len(),
{
    if ids.len() > 0 && ids[0] > 0 {
        let rest = ids.skip(1);
        lemma_positive_ids(rest);
        if forall|i: int| 0 <= i < rest.len() ==> #[trigger] rest[i] > 0 {
            assert forall|i: int| 0 <= i < ids.len() implies #[trigger] ids[i] > 0 by {
                if i > 0 {
                    assert(rest[i - 1] > 0);
                }
            }
        }
        if forall|i: int| 0 <= i < ids.len() ==> #[trigger] ids[i] > 0 {
            assert forall|i: int| 0 <= i < rest.len() implies #[trigger] rest[i] > 0 by {
                assert(ids[i + 1] > 0);
            }
        }
        if let Some(id) = improper_id(rest) {
            let i = choose|i: int| 0 <= i < rest.len() && rest[i] == id;
            assert(ids[i + 1] == id);
        }
    } else if ids.len() > 0 {
        assert(ids.contains(ids[0]));
    }
}

/// Whether the settings of a file make sense apart from the packages: nothing is
/// zero, every ID is positive, somebody is listed, and the database has a place.
pub open spec fn has_sense(config: FileConfig) -> bool {
    &&& config.download_concurrency > 0
    &&& config.download_queue_capacity > 0
    &&& config.max_upload_size_mb > 0
    &&& config.command_timeout_secs > 0
    &&& config.upload_timeout_secs > 0
    &&& config.job_timeout_secs > 0
    &&& forall|i: int| 0 <= i < config.superusers@.len() ==> #[trigger] config.superusers@[i] > 0
    &&& forall|i: int|
        0 <= i < config.allowed_users@.len() ==> #[trigger] config.allowed_users@[i] > 0
    &&& config.superusers@.len() + config.allowed_users@.len() > 0
    &&& config.database.path@.len() > 0
}

/// A file is accepted if its settings make sense, its packages are proper, and
/// the packages that it gives to new users and to superusers are among them;
/// otherwise it is refused.
pub proof fn law_sensible_files_are_accepted(config: FileConfig)
    ensures
        ({
            let packages = raw_packages(config);
            let caps = HardCaps {
                active_jobs: config.download_concurrency,
                queued_jobs: config.download_queue_capacity,
                upload_size_mb: config.max_upload_size_mb as u64,
            };
            let named = |text: Seq<char>|
                package_in(text) is Some && names_one(packages, packages.len(), package_in(text)->0);
            &&& checked(config) is Ok <==> {
                &&& has_sense(config)
                &&& config.packages@.len() == 0 || config.user_tiers is None
                &&& are_proper(packages, packages.len(), caps)
                &&& named(config.default_package@)
                &&& config.superuser_package matches Some(text) ==> named(text@)
            }
            &&& checked(config) matches Ok(view) ==> {
                &&& Some(view.default_package) == package_in(config.default_package@)
                &&& config.superuser_package matches Some(text) ==> Some(view.superuser_package)
                    == package_in(text@)
                &&& config.superuser_package is None ==> view.superuser_package == (if names_one(
                    packages,
                    packages.len(),
                    "paid"@,
                ) {
                    "paid"@
                } else {
                    view.default_package
                })
                &&& forall|name: Seq<char>| #[trigger]
                    view.packages.contains_key(name) <==> names_one(packages, packages.len(), name)
                &&& forall|i: int|
                    0 <= i < packages.len() ==> view.packages[package_in(
                        (#[trigger] packages[i]).0,
                    )->0] == packages[i].1
            }
        }),
{
    let packages = raw_packages(config);
    law_proper_packages_are_taken(packages, packages.len(), caps_of(config));
    let ids = config.superusers@ + config.allowed_users@;
    lemma_positive_ids(ids);
    if forall|i: int| 0 <= i < ids.len() ==> #[trigger] ids[i] > 0 {
        assert forall|i: int| 0 <= i < config.superusers@.len() implies #[trigger]
            config.superusers@[i] > 0 by {
            assert(ids[i] > 0);
        }
        assert forall|i: int| 0 <= i < config.allowed_users@.len() implies #[trigger]
            config.allowed_users@[i] > 0 by {
            assert(ids[config.superusers@.len() + i] > 0);
        }
    }
    if let Ok(table) = collected(packages, packages.len(), caps_of(config)) {
        if let Some(name) = package_in(config.default_package@) {
            assert(table.contains_key(name) <==> names_one(packages, packages.len(), name));
        }
        if let Some(text) = config.superuser_package {
            if let Some(name) = package_in(text@) {
                assert(table.contains_key(name) <==> names_one(packages, packages.len(), name));
            }
        }
        assert(table.contains_key("paid"@) <==> names_one(packages, packages.len(), "paid"@));
    }
}

/// The packages of a file are those that it lists; a file that lists none has a
/// free and a paid one, with the limits of its tiers or with none.
pub proof fn law_files_name_their_packages(config: FileConfig, i: int)
    ensures
        config.packages@.len() > 0 ==> raw_packages(config).len() == config.packages@.len(),
        0 <= i < config.packages@.len() ==> raw_packages(config)[i] == (
            config.packages@[i].0@,
            config.packages@[i].1,
        ),
        config.packages@.len() == 0 ==> {
            let packages = raw_packages(config);
            &&& packages.len() == 2
            &&& packages[0].0 == "free"@
            &&& packages[1].0 == "paid"@
            &&& config.user_tiers matches Some(tiers) ==> packages[0].1 == tiers.free
                && packages[1].1 == tiers.paid
            &&& config.user_tiers is None ==> {
                let unlimited = PackageLimitDefaults {
                    max_active_jobs: None,
                    max_queued_jobs: None,
                    daily_job_limit: None,
                    max_upload_size_mb: None,
                };
                packages[0].1 == unlimited && packages[1].1 == unlimited
            }
        },
{
}

/// A setting that must not be zero is named when it is; so is an ID that cannot
/// be one.
pub proof fn law_refused_files_are_explained(config: FileConfig)
    ensures
        config.download_concurrency == 0 ==> checked(config) == Err::<PackagesView, Seq<char>>(
            "download_concurrency"@ + " must be greater than zero"@,
        ),
        has_sense(FileConfig { download_queue_capacity: 1, ..config })
            && config.download_queue_capacity == 0 ==> checked(config) == Err::<
            PackagesView,
            Seq<char>,
        >("download_queue_capacity"@ + " must be greater than zero"@),
        has_sense(FileConfig { max_upload_size_mb: 1, ..config }) && config.max_upload_size_mb == 0
            ==> checked(config) == Err::<PackagesView, Seq<char>>(
            "max_upload_size_mb"@ + " must be greater than zero"@,
        ),
        has_sense(FileConfig { command_timeout_secs: 1, ..config }) && config.command_timeout_secs
            == 0 ==> checked(config) == Err::<PackagesView, Seq<char>>(
            "command_timeout_secs"@ + " must be greater than zero"@,
        ),
        has_sense(FileConfig { upload_timeout_secs: 1, ..config }) && config.upload_timeout_secs
            == 0 ==> checked(config) == Err::<PackagesView, Seq<char>>(
            "upload_timeout_secs"@ + " must be greater than zero"@,
        ),
        has_sense(FileConfig { job_timeout_secs: 1, ..config }) && config.job_timeout_secs == 0
            ==> checked(config) == Err::<PackagesView, Seq<char>>(
            "job_timeout_secs"@ + " must be greater than zero"@,
        ),
        zero_setting(config) is None && config.superusers@.len() == 1 && config.superusers@[0] <= 0
            ==> checked(config) == Err::<PackagesView, Seq<char>>(
            "user IDs must be positive, found "@ + signed_decimal(config.superusers@[0] as int),
        ),
        zero_setting(config) is None && config.superusers@.len() + config.allowed_users@.len() == 0
            ==> checked(config) == Err::<PackagesView, Seq<char>>(
            "config must list at least one superuser or allowed user"@,
        ),
        has_sense(config) && config.packages@.len() > 0 && config.user_tiers is Some ==> checked(
            config,
        ) == Err::<PackagesView, Seq<char>>(
            "configure `packages` or legacy `user_tiers`, not both"@,
        ),
        zero_setting(config) is None && config.database.path@.len() == 0
            && config.superusers@.len() == 1 && config.superusers@[0] > 0
            && config.allowed_users@.len() == 0 ==> checked(config) == Err::<
            PackagesView,
            Seq<char>,
        >("database.path must not be empty"@),
{
    let ids = config.superusers@ + config.allowed_users@;
    lemma_positive_ids(ids);
    if config.superusers@.len() == 1 {
        assert(ids[0] == config.superusers@[0]);
    }
    if has_sense(config) {
        assert forall|i: int| 0 <= i < ids.len() implies #[trigger] ids[i] > 0 by {
            if i < config.superusers@.len() {
                assert(config.superusers@[i] > 0);
            } else {
                assert(config.allowed_users@[i - config.superusers@.len()] > 0);
            }
        }
    }
}

/// A package that the file gives to new users or to superusers is named when it
/// is not there; where it has no proper name, that is said.
pub proof fn law_missing_packages_are_named(config: FileConfig, name: Seq<char>)
    requires
        has_sense(config),
        config.packages@.len() == 0 || config.user_tiers is None,
        are_proper(raw_packages(config), raw_packages(config).len(), caps_of(config)),
        !names_one(raw_packages(config), raw_packages(config).len(), name),
    ensures
        package_in(config.default_package@) == Some(name) ==> checked(config) == Err::<
            PackagesView,
            Seq<char>,
        >("default_package `"@ + name + "` is not defined in packages"@),
        config.superuser_package is Some && package_in(config.superuser_package->0@) == Some(name)
            && package_in(config.default_package@) is Some && names_one(
            raw_packages(config),
            raw_packages(config).len(),
            package_in(config.default_package@)->0,
        ) ==> checked(config) == Err::<PackagesView, Seq<char>>(
            "superuser_package `"@ + name + "` is not defined in packages"@,
        ),
        package_in(config.default_package@) is None ==> checked(config) == Err::<
            PackagesView,
            Seq<char>,
        >(
            "invalid default_package: "@
                + "package names must be 1-32 ASCII letters, numbers, `_`, or `-`, and start with a letter or number"@,
        ),
        config.superuser_package is Some && package_in(config.superuser_package->0@) is None
            && package_in(config.default_package@) is Some && names_one(
            raw_packages(config),
            raw_packages(config).len(),
            package_in(config.default_package@)->0,
        ) ==> checked(config) == Err::<PackagesView, Seq<char>>(
            "invalid superuser_package: "@
                + "package names must be 1-32 ASCII letters, numbers, `_`, or `-`, and start with a letter or number"@,
        ),
{
    let packages = raw_packages(config);
    law_proper_packages_are_taken(packages, packages.len(), caps_of(config));
    let ids = config.superusers@ + config.allowed_users@;
    lemma_positive_ids(ids);
    assert forall|i: int| 0 <= i < ids.len() implies #[trigger] ids[i] > 0 by {
        if i < config.superusers@.len() {
            assert(config.superusers@[i] > 0);
        } else {
            assert(config.allowed_users@[i - config.superusers@.len()] > 0);
        }
    }
    if let Ok(table) = collected(packages, packages.len(), caps_of(config)) {
        assert(table.contains_key(name) <==> names_one(packages, packages.len(), name));
        if let Some(default_name) = package_in(config.default_package@) {
            assert(table.contains_key(default_name) <==> names_one(
                packages,
                packages.len(),
                default_name,
            ));
        }
    }
}

/// What is wrong with a package is told: that it has no proper name, which limit
/// is zero or exceeds what the whole application may do, or that it is there
/// twice.
pub proof fn law_refused_packages_are_explained(
    packages: Map<Seq<char>, PackageLimitDefaults>,
    raw_name: Seq<char>,
    name: Seq<char>,
    no_name: Seq<char>,
    caps: HardCaps,
)
    requires
        package_in(raw_name) == Some(name),
        package_in(no_name) is None,
    ensures
        ({
            let zero = |field: Seq<char>|
                Err::<Map<Seq<char>, PackageLimitDefaults>, Seq<char>>(
                    "packages."@ + name + "."@ + field + " must be greater than zero or null"@,
                );
            let over = |field: Seq<char>, cap: nat|
                Err::<Map<Seq<char>, PackageLimitDefaults>, Seq<char>>(
                    "packages."@ + name + "."@ + field + " cannot exceed the global maximum of "@
                        + decimal(cap),
                );
            let unlimited = PackageLimitDefaults {
                max_active_jobs: None,
                max_queued_jobs: None,
                daily_job_limit: None,
                max_upload_size_mb: None,
            };
            let active = |value: usize| PackageLimitDefaults {
                max_active_jobs: Some(value),
                ..unlimited
            };
            let queued = |value: usize| PackageLimitDefaults {
                max_queued_jobs: Some(value),
                ..unlimited
            };
            let daily = |value: u64| PackageLimitDefaults {
                daily_job_limit: Some(value),
                ..unlimited
            };
            let upload = |value: u64| PackageLimitDefaults {
                max_upload_size_mb: Some(value),
                ..unlimited
            };
            &&& with_package(packages, no_name, unlimited, caps) == Err::<
                Map<Seq<char>, PackageLimitDefaults>,
                Seq<char>,
            >(
                "invalid package `"@ + no_name + "`: "@
                    + "package names must be 1-32 ASCII letters, numbers, `_`, or `-`, and start with a letter or number"@,
            )
            &&& with_package(packages, raw_name, active(0), caps) == zero("max_active_jobs"@)
            &&& with_package(packages, raw_name, queued(0), caps) == zero("max_queued_jobs"@)
            &&& with_package(packages, raw_name, daily(0), caps) == zero("daily_job_limit"@)
            &&& with_package(packages, raw_name, upload(0), caps) == zero("max_upload_size_mb"@)
            &&& forall|value: usize|
                value > caps.active_jobs && value > 0 ==> #[trigger] with_package(
                    packages,
                    raw_name,
                    active(value),
                    caps,
                ) == over("max_active_jobs"@, caps.active_jobs as nat)
            &&& forall|value: usize|
                value > caps.queued_jobs && value > 0 ==> #[trigger] with_package(
                    packages,
                    raw_name,
                    queued(value),
                    caps,
                ) == over("max_queued_jobs"@, caps.queued_jobs as nat)
            &&& forall|value: u64|
                value > caps.upload_size_mb && value > 0 ==> #[trigger] with_package(
                    packages,
                    raw_name,
                    upload(value),
                    caps,
                ) == over("max_upload_size_mb"@, caps.upload_size_mb as nat)
            &&& packages.contains_key(name) ==> with_package(packages, raw_name, unlimited, caps)
                == Err::<Map<Seq<char>, PackageLimitDefaults>, Seq<char>>(
                "package `"@ + name + "` is configured more than once after normalization"@,
            )
        }),
{
}

// ---------------------------------------------------------------------------
// Cookies
// ---------------------------------------------------------------------------

/// Whether a line is a comment.
pub open spec fn is_comment(line: Seq<char>) -> bool {
    is_tight(line) && line[0] == '#'
}

/// A cookie of those fields, with tabs between them.
pub open spec fn cookie_of(fields: Seq<Seq<char>>) -> Seq<char> {
    joined(fields, "\t"@)
}

/// Whether those can be the fields of a line.
pub open spec fn are_fields(fields: Seq<Seq<char>>) -> bool {
    &&& fields.len() > 0
    &&& forall|i: int| 0 <= i < fields.len() ==> is_word(#[trigger] fields[i])
    &&& fields[0][0] != '#'
}

proof fn lemma_cookie_line(fields: Seq<Seq<char>>)
    requires
        are_fields(fields),
    ensures
        trimmed(cookie_of(fields)) == cookie_of(fields),
        !is_remark(cookie_of(fields)),
        cookie_fields(cookie_of(fields)) == fields,
{
    lemma_tabbed_words(fields);
    let line = cookie_of(fields);
    let none = Seq::<char>::empty();
    assert(is_word(fields[0]));
    assert(is_tight(line));
    law_trimming_takes_off_white_space(none, line, none);
}

/// Comments and empty lines stay in a file, without the white space around them.
pub proof fn law_comments_stay(before: Seq<char>, line: Seq<char>, after: Seq<char>)
    requires
        is_blank(before),
        is_blank(after),
        is_comment(line),
    ensures
        proper_line(before + line + after) == line,
        !is_malformed(before + line + after),
        is_remark(before + line + after),
        cleaned_line(before + line + after) == Some(line),
{
    law_trimming_takes_off_white_space(before, line, after);
}

/// Cookies stay in a file as they are, if they have all their fields: seven for
/// a file that is handed in, six for one that is there.
pub proof fn law_cookies_with_all_their_fields_stay(fields: Seq<Seq<char>>)
    requires
        are_fields(fields),
    ensures
        proper_line(cookie_of(fields)) == cookie_of(fields),
        is_malformed(cookie_of(fields)) <==> fields.len() < 7,
        fields.len() >= 6 ==> cleaned_line(cookie_of(fields)) == Some(cookie_of(fields)),
        fields.len() < 6 ==> cleaned_line(cookie_of(fields)) is None,
{
    lemma_cookie_line(fields);
}

/// Whatever white space stands between the fields of a cookie, tabs take its
/// place.
pub proof fn law_fields_are_separated_by_tabs(
    before: Seq<char>,
    line: Seq<char>,
    after: Seq<char>,
    fields: Seq<Seq<char>>,
)
    requires
        is_blank(before),
        is_blank(after),
        is_tight(line),
        line[0] != '#',
        words_of(line) == fields,
    ensures
        proper_line(before + line + after) == joined(fields, "\t"@),
        is_malformed(before + line + after) <==> fields.len() < 7,
        cleaned_line(before + line + after) == (if fields.len() >= 6 {
            Some(joined(fields, "\t"@))
        } else {
            None
        }),
{
    law_trimming_takes_off_white_space(before, line, after);
}

/// A file is written line by line, each line with its end; lines that are cut
/// out leave no gap.
pub proof fn law_files_are_written_line_by_line(lines: Seq<Seq<char>>, line: Seq<char>)
    ensures
        proper_text(Seq::empty()) == Seq::<char>::empty(),
        proper_text(lines.push(line)) == proper_text(lines) + proper_line(line) + "\n"@,
        cleaned_lines(Seq::empty()) == Seq::<char>::empty(),
        cleaned_line(line) matches Some(kept) ==> cleaned_lines(lines.push(line)) == cleaned_lines(
            lines,
        ) + kept + "\n"@,
        cleaned_line(line) is None ==> cleaned_lines(lines.push(line)) == cleaned_lines(lines),
{
    reveal_strlit("\n");
    assert(lines.push(line).drop_last() =~= lines);
    assert(proper_text(lines) + proper_line(line).push('\n') =~= proper_text(lines) + proper_line(
        line,
    ) + "\n"@);
}

proof fn lemma_first_malformed(lines: Seq<Seq<char>>, from: int)
    requires
        0 <= from,
    ensures
        first_malformed(lines, from) matches Some(at) ==> from <= at < lines.len() && is_malformed(
            lines[at],
        ) && forall|i: int| from <= i < at ==> !is_malformed(#[trigger] lines[i]),
        first_malformed(lines, from) is None ==> forall|i: int|
            from <= i < lines.len() ==> !is_malformed(#[trigger] lines[i]),
    decreases lines.len() - from,
{
    if from < lines.len() && !is_malformed(lines[from]) {
        lemma_first_malformed(lines, from + 1);
    }
}

/// A file is taken if every line of it is in order and one is a cookie. The
/// first line that is not in order is told, with its number and how many fields
/// it has.
pub proof fn law_cookie_files_in_order_are_taken(content: Seq<char>, at: int)
    ensures
        ({
            let lines = lines_of(content);
            let in_order = |line: Seq<char>|
                trimmed(line).len() == 0 || trimmed(line)[0] == '#' || words_of(
                    trimmed(line),
                ).len() >= 7;
            let is_cookie = |line: Seq<char>| trimmed(line).len() > 0 && trimmed(line)[0] != '#';
            &&& normalized(content) is Ok <==> {
                &&& forall|i: int| 0 <= i < lines.len() ==> in_order(#[trigger] lines[i])
                &&& exists|i: int| 0 <= i < lines.len() && is_cookie(#[trigger] lines[i])
            }
            &&& normalized(content) matches Ok(text) ==> text == proper_text(lines)
            &&& 0 <= at < lines.len() && !in_order(lines[at]) && (forall|i: int|
                0 <= i < at ==> in_order(#[trigger] lines[i])) ==> normalized(content) == Err::<
                Seq<char>,
                CookieError,
            >(
                CookieError::TooFewFields {
                    line: (at + 1) as usize,
                    fields: words_of(trimmed(lines[at])).len() as usize,
                },
            )
            &&& (forall|i: int| 0 <= i < lines.len() ==> !is_cookie(#[trigger] lines[i]))
                ==> normalized(content) == Err::<Seq<char>, CookieError>(CookieError::NoRecords)
        }),
{
    let lines = lines_of(content);
    let in_order = |line: Seq<char>|
        trimmed(line).len() == 0 || trimmed(line)[0] == '#' || words_of(trimmed(line)).len() >= 7;
    let is_cookie = |line: Seq<char>| trimmed(line).len() > 0 && trimmed(line)[0] != '#';
    lemma_first_malformed(lines, 0);
    assert forall|i: int| 0 <= i < lines.len() implies in_order(#[trigger] lines[i])
        == !is_malformed(lines[i]) && is_cookie(lines[i]) == !is_remark(lines[i]) by {}
    if let Some(found) = first_malformed(lines, 0) {
        assert(!in_order(lines[found]));
        assert(is_cookie(lines[found]));
        if 0 <= at < lines.len() && !in_order(lines[at]) && (forall|i: int|
            0 <= i < at ==> in_order(#[trigger] lines[i])) {
            assert(is_malformed(lines[at]));
            assert(at == found);
        }
    } else {
        if has_cookie(lines) {
            let i = choose|i: int| 0 <= i < lines.len() && !is_remark(#[trigger] lines[i]);
            assert(is_cookie(lines[i]));
        } else if exists|i: int| 0 <= i < lines.len() && is_cookie(#[trigger] lines[i]) {
            let i = choose|i: int| 0 <= i < lines.len() && is_cookie(#[trigger] lines[i]);
            assert(!is_remark(lines[i]));
        }
        if 0 <= at < lines.len() {
            assert(!is_malformed(lines[at]));
        }
    }
}

/// The cookies of a message are what follows the command, without the white
/// space around it. A superuser's cookies are installed if they are in order;
/// otherwise the answer says what is missing.
pub proof fn law_superusers_install_cookies(
    command: Seq<char>,
    blanks: Seq<char>,
    content: Seq<char>,
    after: Seq<char>,
    sender_id: i64,
    super_users: Seq<i64>,
)
    requires
        is_word(command),
        is_blank(blanks),
        blanks.len() > 0,
        is_blank(after),
        is_tight(content),
        super_users.contains(sender_id),
    ensures
        normalized(content) is Ok ==> cookie_step(
            command + (blanks + content + after),
            sender_id,
            super_users,
        ) == CookieStepView::Install(content),
        normalized(content) matches Err(error) ==> cookie_step(
            command + (blanks + content + after),
            sender_id,
            super_users,
        ) == CookieStepView::Reply("Invalid cookie content: "@ + error.says()),
        cookie_step(command, sender_id, super_users) == CookieStepView::Reply(
            "Please provide the cookie content after the command."@,
        ),
{
    lemma_after_command(command, blanks, content, after);
    lemma_nothing_after(command);
}

proof fn lemma_after_command(
    command: Seq<char>,
    blanks: Seq<char>,
    content: Seq<char>,
    after: Seq<char>,
)
    requires
        forall|i: int| 0 <= i < command.len() ==> !is_white_space(#[trigger] command[i]),
        is_blank(blanks),
        blanks.len() > 0,
        is_blank(after),
        is_tight(content),
    ensures
        after_command(command + (blanks + content + after)) == content,
    decreases command.len(),
{
    let rest = blanks + content + after;
    let text = command + rest;
    if command.len() == 0 {
        assert(text =~= rest);
        assert(is_white_space(blanks[0]));
        let fewer = blanks.skip(1);
        assert forall|i: int| 0 <= i < fewer.len() implies is_white_space(#[trigger] fewer[i]) by {
            assert(is_white_space(blanks[i + 1]));
        }
        law_trimming_takes_off_white_space(fewer, content, after);
        assert(text.skip(1) =~= fewer + content + after);
    } else {
        let fewer = command.skip(1);
        assert forall|i: int| 0 <= i < fewer.len() implies !is_white_space(#[trigger] fewer[i]) by {
            assert(!is_white_space(command[i + 1]));
        }
        assert(!is_white_space(command[0]));
        lemma_after_command(fewer, blanks, content, after);
        assert(text.skip(1) =~= fewer + rest);
    }
}

proof fn lemma_nothing_after(command: Seq<char>)
    requires
        forall|i: int| 0 <= i < command.len() ==> !is_white_space(#[trigger] command[i]),
    ensures
        after_command(command).len() == 0,
    decreases command.len(),
{
    if command.len() > 0 {
        let fewer = command.skip(1);
        assert forall|i: int| 0 <= i < fewer.len() implies !is_white_space(#[trigger] fewer[i]) by {
            assert(!is_white_space(command[i + 1]));
        }
        assert(!is_white_space(command[0]));
        lemma_nothing_after(fewer);
    }
}

/// What is wrong with cookies is told in words.
pub proof fn law_cookie_errors_are_told(line: usize, fields: usize)
    ensures
        (CookieError::TooFewFields { line, fields }).says() == "cookie line "@ + decimal(
            line as nat,
        ) + " has "@ + decimal(fields as nat) + " fields; expected at least 7"@,
        CookieError::NoRecords.says() == "cookie content contains no Netscape cookie records"@,
{
}

} // verus!
