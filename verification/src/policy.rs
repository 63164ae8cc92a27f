//! Packages, the limits they set, and the limits that hold for a user.

use vstd::prelude::*;

use crate::number::{decimal, parse_u64, u64_in, write_u64};
use crate::text::{
    ascii_alphanumeric, ascii_lower, ascii_lowercase, ascii_lowered, chars_of, eq_ignore_ascii_case,
    equal_ignoring_ascii_case, is_ascii_alphanumeric, lemma_text_less_irreflexive,
    lemma_text_less_total, lemma_text_less_transitive, less, same_text, text_less,
};

verus! {

pub const MEBIBYTE: u64 = 1_048_576;

pub const MAX_PACKAGE_NAME_LEN: usize = 32;

// ---------------------------------------------------------------------------
// Package names
// ---------------------------------------------------------------------------

/// The name of a package, in lower case.
#[derive(Debug, PartialEq, Eq, PartialOrd, Ord, Hash)]
pub struct PackageName(String);

impl View for PackageName {
    type V = Seq<char>;

    closed spec fn view(&self) -> Seq<char> {
        self.0@
    }
}

/// A character that may stand in a package name after its first one.
pub open spec fn is_name_char(c: char) -> bool {
    is_ascii_alphanumeric(c) || c == '_' || c == '-'
}

/// Whether `text` can name a package, in whatever case.
pub open spec fn names_package(text: Seq<char>) -> bool {
    &&& 1 <= text.len() <= MAX_PACKAGE_NAME_LEN
    &&& is_ascii_alphanumeric(text[0])
    &&& forall|i: int| 0 <= i < text.len() ==> is_name_char(#[trigger] text[i])
}

/// The package name that `text` stands for.
pub open spec fn package_in(text: Seq<char>) -> Option<Seq<char>> {
    if names_package(text) {
        Some(ascii_lowered(text))
    } else {
        None
    }
}

/// Why a text is not a package name.
#[derive(Clone, Copy, Debug, PartialEq, Eq, Structural)]
pub struct InvalidPackageName;

impl InvalidPackageName {
    pub fn message(&self) -> (result: String)
        ensures
            result@ == invalid_package_name_text(),
    {
        INVALID_PACKAGE_NAME.to_owned()
    }
}

pub const INVALID_PACKAGE_NAME: &'static str =
    "package names must be 1-32 ASCII letters, numbers, `_`, or `-`, and start with a letter or number";

pub open spec fn invalid_package_name_text() -> Seq<char> {
    INVALID_PACKAGE_NAME@
}

impl PackageName {
    /// Whether the name is one that [`PackageName::parse`] can give.
    #[verifier::type_invariant]
    spec fn is_normal(self) -> bool {
        names_package(self.0@) && ascii_lowered(self.0@) == self.0@
    }

    pub fn parse(value: &str) -> (result: Option<PackageName>)
        ensures
            match (result, package_in(value@)) {
                (Some(name), Some(expected)) => name@ == expected,
                (None, None) => true,
                _ => false,
            },
    {
        let chars = chars_of(value);
        if chars.len() == 0 || chars.len() > MAX_PACKAGE_NAME_LEN || !ascii_alphanumeric(chars[0]) {
            return None;
        }
        let mut i: usize = 0;
        while i < chars.len()
            invariant
                i <= chars@.len(),
                chars@ == value@,
                forall|k: int| 0 <= k < i ==> is_name_char(#[trigger] value@[k]),
            decreases chars.len() - i,
        {
            let c = chars[i];
            if !(ascii_alphanumeric(c) || c == '_' || c == '-') {
                assert(!is_name_char(value@[i as int]));
                return None;
            }
            i = i + 1;
        }
        let normalized = ascii_lowercase(value);
        proof {
            lemma_lowering_keeps_names(value@);
        }
        Some(PackageName(normalized))
    }

    pub fn require(value: &str) -> (result: Result<PackageName, InvalidPackageName>)
        ensures
            match (result, package_in(value@)) {
                (Ok(name), Some(expected)) => name@ == expected,
                (Err(_), None) => true,
                _ => false,
            },
    {
        match PackageName::parse(value) {
            Some(name) => Ok(name),
            None => Err(InvalidPackageName),
        }
    }

    pub fn as_str(&self) -> (result: &str)
        ensures
            result@ == self@,
            names_package(result@),
            ascii_lowered(result@) == result@,
    {
        proof {
            use_type_invariant(self);
        }
        self.0.as_str()
    }
}

impl Clone for PackageName {
    fn clone(&self) -> (result: PackageName)
        ensures
            result@ == self@,
    {
        proof {
            use_type_invariant(self);
        }
        PackageName(self.0.clone())
    }
}

/// Lowering a package name gives a package name, which lowering then keeps.
pub proof fn lemma_lowering_keeps_names(text: Seq<char>)
    requires
        names_package(text),
    ensures
        names_package(ascii_lowered(text)),
        ascii_lowered(ascii_lowered(text)) == ascii_lowered(text),
{
    let lowered = ascii_lowered(text);
    assert forall|i: int| 0 <= i < lowered.len() implies is_name_char(#[trigger] lowered[i])
        && ascii_lower(lowered[i]) == lowered[i] by {
        assert(is_name_char(text[i]));
    }
    assert(ascii_lowered(lowered) =~= lowered);
}

/// Package names are read without regard to case: two texts that differ in the
/// case of ASCII letters alone name the same package, or neither names one.
pub proof fn law_package_names_ignore_case(left: Seq<char>, right: Seq<char>)
    requires
        equal_ignoring_ascii_case(left, right),
    ensures
        package_in(left) == package_in(right),
{
    assert(ascii_lowered(left).len() == ascii_lowered(right).len());
    assert forall|i: int| 0 <= i < left.len() implies is_name_char(left[i]) == is_name_char(right[i])
        && is_ascii_alphanumeric(left[i]) == is_ascii_alphanumeric(right[i]) by {
        assert(ascii_lowered(left)[i] == ascii_lowered(right)[i]);
    }
    if names_package(left) {
        assert(names_package(right));
    }
    if names_package(right) {
        assert(names_package(left));
    }
}

// ---------------------------------------------------------------------------
// Limits of a single user
// ---------------------------------------------------------------------------

#[derive(Clone, Copy, Debug, PartialEq, Eq, Structural)]
pub enum UserLimitName {
    MaxActiveJobs,
    MaxQueuedJobs,
    DailyJobLimit,
    MaxUploadSizeMb,
}

/// The limit that `text` names, in whatever case.
pub open spec fn limit_name_in(text: Seq<char>) -> Option<UserLimitName> {
    let name = ascii_lowered(text);
    if name == "active"@ || name == "max_active_jobs"@ {
        Some(UserLimitName::MaxActiveJobs)
    } else if name == "queued"@ || name == "queue"@ || name == "max_queued_jobs"@ {
        Some(UserLimitName::MaxQueuedJobs)
    } else if name == "daily"@ || name == "daily_job_limit"@ {
        Some(UserLimitName::DailyJobLimit)
    } else if name == "upload"@ || name == "upload_mb"@ || name == "max_upload_size_mb"@ {
        Some(UserLimitName::MaxUploadSizeMb)
    } else {
        None
    }
}

/// The name under which a limit is stored.
pub open spec fn limit_column(name: UserLimitName) -> Seq<char> {
    match name {
        UserLimitName::MaxActiveJobs => "max_active_jobs"@,
        UserLimitName::MaxQueuedJobs => "max_queued_jobs"@,
        UserLimitName::DailyJobLimit => "daily_job_limit"@,
        UserLimitName::MaxUploadSizeMb => "max_upload_size_mb"@,
    }
}

impl UserLimitName {
    pub fn parse(value: &str) -> (result: Option<UserLimitName>)
        ensures
            result == limit_name_in(value@),
    {
        let lowered = ascii_lowercase(value);
        let name = lowered.as_str();
        if same_text(name, "active") || same_text(name, "max_active_jobs") {
            Some(UserLimitName::MaxActiveJobs)
        } else if same_text(name, "queued") || same_text(name, "queue") || same_text(
            name,
            "max_queued_jobs",
        ) {
            Some(UserLimitName::MaxQueuedJobs)
        } else if same_text(name, "daily") || same_text(name, "daily_job_limit") {
            Some(UserLimitName::DailyJobLimit)
        } else if same_text(name, "upload") || same_text(name, "upload_mb") || same_text(
            name,
            "max_upload_size_mb",
        ) {
            Some(UserLimitName::MaxUploadSizeMb)
        } else {
            None
        }
    }

    pub fn as_str(self) -> (result: &'static str)
        ensures
            result@ == limit_column(self),
    {
        match self {
            UserLimitName::MaxActiveJobs => "max_active_jobs",
            UserLimitName::MaxQueuedJobs => "max_queued_jobs",
            UserLimitName::DailyJobLimit => "daily_job_limit",
            UserLimitName::MaxUploadSizeMb => "max_upload_size_mb",
        }
    }
}

/// The name under which a limit is stored is itself read as that limit.
pub proof fn law_limit_names_read_back(name: UserLimitName)
    ensures
        limit_name_in(limit_column(name)) == Some(name),
{
    reveal_strlit("active");
    reveal_strlit("queued");
    reveal_strlit("queue");
    reveal_strlit("daily");
    reveal_strlit("max_active_jobs");
    reveal_strlit("max_queued_jobs");
    reveal_strlit("daily_job_limit");
    reveal_strlit("max_upload_size_mb");
    let text = limit_column(name);
    assert(ascii_lowered(text) =~= text);
    assert("max_queued_jobs"@[4] != "max_active_jobs"@[4]);
    assert("daily_job_limit"@[0] != "max_active_jobs"@[0]);
}

#[derive(Clone, Copy, Debug, PartialEq, Eq, Structural)]
pub enum UserLimitValue {
    Default,
    Value(u64),
}

/// The limit value that `text` gives: `default`, or a positive number.
pub open spec fn limit_value_in(text: Seq<char>) -> Option<UserLimitValue> {
    if equal_ignoring_ascii_case(text, "default"@) {
        Some(UserLimitValue::Default)
    } else {
        match u64_in(text) {
            Some(value) if value > 0 => Some(UserLimitValue::Value(value)),
            _ => None,
        }
    }
}

impl UserLimitValue {
    pub fn parse(value: &str) -> (result: Option<UserLimitValue>)
        ensures
            result == limit_value_in(value@),
    {
        if eq_ignore_ascii_case(value, "default") {
            return Some(UserLimitValue::Default);
        }
        match parse_u64(value) {
            Some(number) if number > 0 => Some(UserLimitValue::Value(number)),
            _ => None,
        }
    }
}

// ---------------------------------------------------------------------------
// Limits of a package
// ---------------------------------------------------------------------------

/// The limits that a package sets; where it sets none, the global one holds.
#[derive(Clone, Copy, Debug, PartialEq, Eq, Structural)]
pub struct PackageLimitDefaults {
    pub max_active_jobs: Option<usize>,
    pub max_queued_jobs: Option<usize>,
    pub daily_job_limit: Option<u64>,
    pub max_upload_size_mb: Option<u64>,
}

impl Default for PackageLimitDefaults {
    fn default() -> (result: PackageLimitDefaults)
        ensures
            result == no_package_limits(),
    {
        PackageLimitDefaults {
            max_active_jobs: None,
            max_queued_jobs: None,
            daily_job_limit: None,
            max_upload_size_mb: None,
        }
    }
}

pub open spec fn no_package_limits() -> PackageLimitDefaults {
    PackageLimitDefaults {
        max_active_jobs: None,
        max_queued_jobs: None,
        daily_job_limit: None,
        max_upload_size_mb: None,
    }
}

/// The first limit of a package that is zero.
pub open spec fn zero_limit(limits: PackageLimitDefaults) -> Option<UserLimitName> {
    if limits.max_active_jobs == Some(0usize) {
        Some(UserLimitName::MaxActiveJobs)
    } else if limits.max_queued_jobs == Some(0usize) {
        Some(UserLimitName::MaxQueuedJobs)
    } else if limits.daily_job_limit == Some(0u64) {
        Some(UserLimitName::DailyJobLimit)
    } else if limits.max_upload_size_mb == Some(0u64) {
        Some(UserLimitName::MaxUploadSizeMb)
    } else {
        None
    }
}

/// A limit of a package that is zero.
#[derive(Debug, PartialEq, Eq)]
pub struct ZeroLimit {
    /// Where the package stands in the configuration.
    pub path: String,
    pub limit: UserLimitName,
}

impl ZeroLimit {
    pub fn message(&self) -> (result: String)
        ensures
            result@ == self.path@ + "."@ + limit_column(self.limit)
                + " must be greater than zero or null"@,
    {
        self.path.clone().concat(".").concat(self.limit.as_str()).concat(
            " must be greater than zero or null",
        )
    }
}

impl PackageLimitDefaults {
    /// Accepts limits of which none is zero.
    pub fn validate(self, path: &str) -> (result: Result<(), ZeroLimit>)
        ensures
            match (result, zero_limit(self)) {
                (Ok(()), None) => true,
                (Err(error), Some(limit)) => error.limit == limit && error.path@ == path@,
                _ => false,
            },
    {
        let limit = if is_zero_usize(self.max_active_jobs) {
            UserLimitName::MaxActiveJobs
        } else if is_zero_usize(self.max_queued_jobs) {
            UserLimitName::MaxQueuedJobs
        } else if is_zero_u64(self.daily_job_limit) {
            UserLimitName::DailyJobLimit
        } else if is_zero_u64(self.max_upload_size_mb) {
            UserLimitName::MaxUploadSizeMb
        } else {
            return Ok(());
        };
        Err(ZeroLimit { path: path.to_owned(), limit })
    }
}

fn is_zero_usize(value: Option<usize>) -> (result: bool)
    ensures
        result == (value == Some(0usize)),
{
    match value {
        Some(number) => number == 0,
        None => false,
    }
}

fn is_zero_u64(value: Option<u64>) -> (result: bool)
    ensures
        result == (value == Some(0u64)),
{
    match value {
        Some(number) => number == 0,
        None => false,
    }
}

/// What a superuser has set for one user, over what the package says.
#[derive(Clone, Copy, Debug, PartialEq, Eq, Structural)]
pub struct UserLimitOverrides {
    pub max_active_jobs: Option<usize>,
    pub max_queued_jobs: Option<usize>,
    pub daily_job_limit: Option<u64>,
    pub max_upload_size_mb: Option<u64>,
}

pub open spec fn no_overrides() -> UserLimitOverrides {
    UserLimitOverrides {
        max_active_jobs: None,
        max_queued_jobs: None,
        daily_job_limit: None,
        max_upload_size_mb: None,
    }
}

impl Default for UserLimitOverrides {
    fn default() -> (result: UserLimitOverrides)
        ensures
            result == no_overrides(),
    {
        UserLimitOverrides {
            max_active_jobs: None,
            max_queued_jobs: None,
            daily_job_limit: None,
            max_upload_size_mb: None,
        }
    }
}

/// The limits that hold for a user.
#[derive(Clone, Copy, Debug, PartialEq, Eq, Structural)]
pub struct EffectiveUserLimits {
    pub max_active_jobs: usize,
    pub max_queued_jobs: usize,
    pub daily_job_limit: Option<u64>,
    pub max_upload_bytes: u64,
}

// ---------------------------------------------------------------------------
// The packages of a configuration
// ---------------------------------------------------------------------------

/// The configured packages, in the order of their names. No name occurs twice.
pub struct PackageTable {
    entries: Vec<(PackageName, PackageLimitDefaults)>,
}

/// The packages in a list of entries; a later entry replaces an earlier one of
/// the same name.
pub open spec fn packages_in(entries: Seq<(PackageName, PackageLimitDefaults)>) -> Map<
    Seq<char>,
    PackageLimitDefaults,
>
    decreases entries.len(),
{
    if entries.len() == 0 {
        Map::empty()
    } else {
        packages_in(entries.drop_last()).insert(entries.last().0@, entries.last().1)
    }
}

/// Whether the names in a list of entries grow from one to the next.
pub open spec fn names_grow(entries: Seq<(PackageName, PackageLimitDefaults)>) -> bool {
    forall|i: int, j: int|
        0 <= i < j < entries.len() ==> text_less(#[trigger] entries[i].0@, #[trigger] entries[j].0@)
}

proof fn lemma_packages_in(entries: Seq<(PackageName, PackageLimitDefaults)>)
    requires
        names_grow(entries),
    ensures
        forall|name: Seq<char>|
            #![trigger packages_in(entries).contains_key(name)]
            packages_in(entries).contains_key(name) <==> exists|i: int|
                0 <= i < entries.len() && #[trigger] entries[i].0@ == name,
        forall|i: int|
            0 <= i < entries.len() ==> packages_in(entries).contains_key(#[trigger] entries[i].0@)
                && packages_in(entries)[entries[i].0@] == entries[i].1,
        packages_in(entries).len() == entries.len(),
        packages_in(entries).dom().finite(),
    decreases entries.len(),
{
    if entries.len() > 0 {
        let before = entries.drop_last();
        assert(names_grow(before)) by {
            assert forall|i: int, j: int| 0 <= i < j < before.len() implies text_less(
                #[trigger] before[i].0@,
                #[trigger] before[j].0@,
            ) by {
                assert(text_less(entries[i].0@, entries[j].0@));
            }
        }
        lemma_packages_in(before);
        let last = entries.last();
        assert forall|i: int| 0 <= i < before.len() implies before[i].0@ != last.0@ by {
            assert(text_less(entries[i].0@, entries[entries.len() - 1].0@));
            lemma_text_less_irreflexive(last.0@);
        }
        assert forall|i: int| 0 <= i < entries.len() implies packages_in(entries).contains_key(
            #[trigger] entries[i].0@,
        ) && packages_in(entries)[entries[i].0@] == entries[i].1 by {
            if i < before.len() {
                assert(before[i] == entries[i]);
            }
        }
        assert forall|name: Seq<char>| #[trigger]
            packages_in(entries).contains_key(name) implies exists|i: int|
            0 <= i < entries.len() && #[trigger] entries[i].0@ == name by {
            if name == last.0@ {
                assert(entries[entries.len() - 1].0@ == name);
            } else {
                let i = choose|i: int| 0 <= i < before.len() && #[trigger] before[i].0@ == name;
                assert(entries[i].0@ == name);
            }
        }
        assert(!packages_in(before).contains_key(last.0@));
    }
}

impl View for PackageTable {
    type V = Map<Seq<char>, PackageLimitDefaults>;

    closed spec fn view(&self) -> Map<Seq<char>, PackageLimitDefaults> {
        packages_in(self.entries@)
    }
}

impl PackageTable {
    #[verifier::type_invariant]
    spec fn is_ordered(self) -> bool {
        names_grow(self.entries@)
    }

    pub closed spec fn listed(self) -> Seq<(PackageName, PackageLimitDefaults)> {
        self.entries@
    }

    pub fn new() -> (result: PackageTable)
        ensures
            result@ == Map::<Seq<char>, PackageLimitDefaults>::empty(),
    {
        PackageTable { entries: Vec::new() }
    }

    /// Where the entry of that name stands, or where it belongs.
    fn position(&self, name: &PackageName) -> (result: (usize, bool))
        ensures
            result.0 <= self.entries@.len(),
            forall|i: int|
                0 <= i < result.0 ==> text_less(#[trigger] self.entries@[i].0@, name@),
            result.1 ==> result.0 < self.entries@.len() && self.entries@[result.0 as int].0@ == name@,
            !result.1 ==> forall|i: int|
                result.0 <= i < self.entries@.len() ==> text_less(
                    name@,
                    #[trigger] self.entries@[i].0@,
                ),
    {
        proof {
            use_type_invariant(self);
        }
        let mut at: usize = 0;
        while at < self.entries.len() && less(self.entries[at].0.as_str(), name.as_str())
            invariant
                at <= self.entries@.len(),
                forall|i: int| 0 <= i < at ==> text_less(#[trigger] self.entries@[i].0@, name@),
            decreases self.entries.len() - at,
        {
            at = at + 1;
        }
        let found = at < self.entries.len() && same_text(
            self.entries[at].0.as_str(),
            name.as_str(),
        );
        proof {
            if !found && at < self.entries@.len() {
                lemma_text_less_total(self.entries@[at as int].0@, name@);
                assert forall|i: int| at <= i < self.entries@.len() implies text_less(
                    name@,
                    #[trigger] self.entries@[i].0@,
                ) by {
                    if i > at {
                        assert(text_less(self.entries@[at as int].0@, self.entries@[i].0@));
                        lemma_text_less_transitive(
                            name@,
                            self.entries@[at as int].0@,
                            self.entries@[i].0@,
                        );
                    }
                }
            }
        }
        (at, found)
    }

    /// The limits of the package of that name.
    pub fn get(&self, name: &PackageName) -> (result: Option<PackageLimitDefaults>)
        ensures
            self@.contains_key(name@) ==> result == Some(self@[name@]),
            !self@.contains_key(name@) ==> result is None,
    {
        proof {
            use_type_invariant(self);
            lemma_packages_in(self.entries@);
        }
        let (at, found) = self.position(name);
        proof {
            lemma_text_less_irreflexive(name@);
        }
        if found {
            Some(self.entries[at].1)
        } else {
            None
        }
    }

    pub fn contains(&self, name: &PackageName) -> (result: bool)
        ensures
            result == self@.contains_key(name@),
    {
        match self.get(name) {
            Some(_) => true,
            None => false,
        }
    }

    /// Adds a package, unless there is one of that name; says whether it did.
    pub fn add(&mut self, name: PackageName, limits: PackageLimitDefaults) -> (result: bool)
        ensures
            result == !old(self)@.contains_key(name@),
            result ==> final(self)@ == old(self)@.insert(name@, limits),
            !result ==> final(self)@ == old(self)@,
    {
        proof {
            use_type_invariant(&*self);
            lemma_packages_in(self.entries@);
            lemma_text_less_irreflexive(name@);
        }
        let (at, found) = self.position(&name);
        if found {
            return false;
        }
        let ghost before = self.entries@;
        let ghost added = (name, limits);
        let mut entries: Vec<(PackageName, PackageLimitDefaults)> = Vec::new();
        std::mem::swap(&mut entries, &mut self.entries);
        entries.insert(at, (name, limits));
        proof {
            let after = entries@;
            assert(after =~= before.insert(at as int, added));
            assert forall|i: int, j: int| 0 <= i < j < after.len() implies text_less(
                #[trigger] after[i].0@,
                #[trigger] after[j].0@,
            ) by {
                let k = if i < at { i } else { i - 1 };
                let l = if j < at { j } else { j - 1 };
                if i != at && j != at {
                    assert(text_less(before[k].0@, before[l].0@));
                } else if i == at {
                    assert(text_less(name@, before[l].0@));
                } else {
                    assert(text_less(before[k].0@, name@));
                }
            }
            lemma_packages_in(after);
            assert forall|key: Seq<char>| packages_in(after).contains_key(key) <==> packages_in(
                before,
            ).insert(name@, limits).contains_key(key) by {
                if packages_in(after).contains_key(key) {
                    let i = choose|i: int| 0 <= i < after.len() && #[trigger] after[i].0@ == key;
                    if i < at {
                        assert(before[i].0@ == key);
                    } else if i > at {
                        assert(before[i - 1].0@ == key);
                    }
                }
                if packages_in(before).contains_key(key) {
                    let i = choose|i: int| 0 <= i < before.len() && #[trigger] before[i].0@ == key;
                    if i < at {
                        assert(after[i].0@ == key);
                    } else {
                        assert(after[i + 1].0@ == key);
                    }
                }
                assert(after[at as int].0@ == name@);
            }
            assert forall|key: Seq<char>| packages_in(after).contains_key(key) implies packages_in(
                after,
            )[key] == packages_in(before).insert(name@, limits)[key] by {
                let i = choose|i: int| 0 <= i < after.len() && #[trigger] after[i].0@ == key;
                if i < at {
                    assert(before[i] == after[i]);
                } else if i > at {
                    assert(before[i - 1] == after[i]);
                }
            }
            assert(packages_in(after) =~= packages_in(before).insert(name@, limits));
        }
        self.entries = entries;
        true
    }

    /// Every package with its limits, in the order of the names.
    pub fn entries(&self) -> (result: &Vec<(PackageName, PackageLimitDefaults)>)
        ensures
            result@ == self.listed(),
            names_grow(result@),
            packages_in(result@) == self@,
            result@.len() == self@.len(),
            forall|i: int|
                0 <= i < result@.len() ==> self@.contains_key(#[trigger] result@[i].0@)
                    && self@[result@[i].0@] == result@[i].1,
    {
        proof {
            use_type_invariant(self);
            lemma_packages_in(self.entries@);
        }
        &self.entries
    }

    pub fn len(&self) -> (result: usize)
        ensures
            result == self@.len(),
    {
        proof {
            use_type_invariant(self);
            lemma_packages_in(self.entries@);
        }
        self.entries.len()
    }
}

// ---------------------------------------------------------------------------
// Policies
// ---------------------------------------------------------------------------

/// The packages and the global safety caps that no limit exceeds.
pub struct UserPolicies {
    packages: PackageTable,
    default_package: PackageName,
    hard_max_active_jobs: usize,
    hard_max_queued_jobs: usize,
    hard_max_upload_size_mb: u64,
}

/// The global safety caps.
pub ghost struct HardCaps {
    pub active_jobs: usize,
    pub queued_jobs: usize,
    pub upload_size_mb: u64,
}

/// The smaller of two numbers.
pub open spec fn smaller(a: nat, b: nat) -> nat {
    if a <= b {
        a
    } else {
        b
    }
}

/// `value` mebibytes in bytes, or as many as a `u64` holds.
pub open spec fn mebibytes(value: u64) -> u64 {
    smaller(value as nat * MEBIBYTE as nat, u64::MAX as nat) as u64
}

/// The limit that holds: the user's own, else the package's, else the cap, and
/// in any case no more than the cap.
pub open spec fn capped_usize(own: Option<usize>, package: Option<usize>, cap: usize) -> usize {
    let wanted = match (own, package) {
        (Some(value), _) => value,
        (None, Some(value)) => value,
        (None, None) => cap,
    };
    smaller(wanted as nat, cap as nat) as usize
}

/// As [`capped_usize`].
pub open spec fn capped_u64(own: Option<u64>, package: Option<u64>, cap: u64) -> u64 {
    let wanted = match (own, package) {
        (Some(value), _) => value,
        (None, Some(value)) => value,
        (None, None) => cap,
    };
    smaller(wanted as nat, cap as nat) as u64
}

/// The limits that hold for a user of a package.
pub open spec fn effective_limits(
    defaults: PackageLimitDefaults,
    overrides: UserLimitOverrides,
    caps: HardCaps,
) -> EffectiveUserLimits {
    EffectiveUserLimits {
        max_active_jobs: capped_usize(
            overrides.max_active_jobs,
            defaults.max_active_jobs,
            caps.active_jobs,
        ),
        max_queued_jobs: capped_usize(
            overrides.max_queued_jobs,
            defaults.max_queued_jobs,
            caps.queued_jobs,
        ),
        daily_job_limit: match overrides.daily_job_limit {
            Some(value) => Some(value),
            None => defaults.daily_job_limit,
        },
        max_upload_bytes: mebibytes(
            capped_u64(
                overrides.max_upload_size_mb,
                defaults.max_upload_size_mb,
                caps.upload_size_mb,
            ),
        ),
    }
}

/// The limits that hold for a superuser: the caps alone.
pub open spec fn superuser_limits_of(caps: HardCaps) -> EffectiveUserLimits {
    EffectiveUserLimits {
        max_active_jobs: caps.active_jobs,
        max_queued_jobs: caps.queued_jobs,
        daily_job_limit: None,
        max_upload_bytes: mebibytes(caps.upload_size_mb),
    }
}

/// The cap that an override of that name must keep to.
pub open spec fn hard_limit(name: UserLimitName, caps: HardCaps) -> Option<u64> {
    match name {
        UserLimitName::MaxActiveJobs => Some(caps.active_jobs as u64),
        UserLimitName::MaxQueuedJobs => Some(caps.queued_jobs as u64),
        UserLimitName::DailyJobLimit => None,
        UserLimitName::MaxUploadSizeMb => Some(caps.upload_size_mb),
    }
}

/// A package that is not configured.
#[derive(Debug, PartialEq, Eq)]
pub struct UnknownPackage {
    pub package: PackageName,
}

impl UnknownPackage {
    pub fn message(&self) -> (result: String)
        ensures
            result@ == "package `"@ + self.package@ + "` is not configured"@,
    {
        "package `".to_owned().concat(self.package.as_str()).concat("` is not configured")
    }
}

/// An override above its global cap.
#[derive(Clone, Copy, Debug, PartialEq, Eq, Structural)]
pub struct OverCap {
    pub limit: UserLimitName,
    pub maximum: u64,
}

impl OverCap {
    pub fn message(&self) -> (result: String)
        ensures
            result@ == limit_column(self.limit) + " cannot exceed the global maximum of "@ + decimal(
                self.maximum as nat,
            ),
    {
        self.limit.as_str().to_owned().concat(" cannot exceed the global maximum of ").concat(
            write_u64(self.maximum).as_str(),
        )
    }
}

fn capped_usize_value(own: Option<usize>, package: Option<usize>, cap: usize) -> (result: usize)
    ensures
        result == capped_usize(own, package, cap),
{
    let wanted: usize = match own {
        Some(value) => value,
        None => match package {
            Some(value) => value,
            None => cap,
        },
    };
    if wanted <= cap {
        wanted
    } else {
        cap
    }
}

fn capped_u64_value(own: Option<u64>, package: Option<u64>, cap: u64) -> (result: u64)
    ensures
        result == capped_u64(own, package, cap),
{
    let wanted: u64 = match own {
        Some(value) => value,
        None => match package {
            Some(value) => value,
            None => cap,
        },
    };
    if wanted <= cap {
        wanted
    } else {
        cap
    }
}

/// `value` mebibytes in bytes, or as many as a `u64` holds.
pub fn mebibytes_in_bytes(value: u64) -> (result: u64)
    ensures
        result == mebibytes(value),
{
    if value <= u64::MAX / MEBIBYTE {
        value * MEBIBYTE
    } else {
        u64::MAX
    }
}

impl UserPolicies {
    pub closed spec fn table(self) -> Map<Seq<char>, PackageLimitDefaults> {
        self.packages@
    }

    pub closed spec fn default_name(self) -> Seq<char> {
        self.default_package@
    }

    pub closed spec fn caps(self) -> HardCaps {
        HardCaps {
            active_jobs: self.hard_max_active_jobs,
            queued_jobs: self.hard_max_queued_jobs,
            upload_size_mb: self.hard_max_upload_size_mb,
        }
    }

    pub fn new(
        packages: PackageTable,
        default_package: PackageName,
        hard_max_active_jobs: usize,
        hard_max_queued_jobs: usize,
        hard_max_upload_size_mb: u64,
    ) -> (result: UserPolicies)
        ensures
            result.table() == packages@,
            result.default_name() == default_package@,
            result.caps() == (HardCaps {
                active_jobs: hard_max_active_jobs,
                queued_jobs: hard_max_queued_jobs,
                upload_size_mb: hard_max_upload_size_mb,
            }),
    {
        UserPolicies {
            packages,
            default_package,
            hard_max_active_jobs,
            hard_max_queued_jobs,
            hard_max_upload_size_mb,
        }
    }

    pub fn default_package(&self) -> (result: &PackageName)
        ensures
            result@ == self.default_name(),
    {
        &self.default_package
    }

    pub fn has_package(&self, package: &PackageName) -> (result: bool)
        ensures
            result == self.table().contains_key(package@),
    {
        self.packages.contains(package)
    }

    /// Every package with its limits, in the order of the names.
    pub closed spec fn entries(self) -> Seq<(PackageName, PackageLimitDefaults)> {
        self.packages.listed()
    }

    pub fn packages(&self) -> (result: &Vec<(PackageName, PackageLimitDefaults)>)
        ensures
            result@ == self.entries(),
            names_grow(result@),
            packages_in(result@) == self.table(),
            result@.len() == self.table().len(),
            forall|i: int|
                0 <= i < result@.len() ==> self.table().contains_key(#[trigger] result@[i].0@)
                    && self.table()[result@[i].0@] == result@[i].1,
    {
        self.packages.entries()
    }

    pub fn resolve(&self, package: &PackageName, overrides: UserLimitOverrides) -> (result: Result<
        EffectiveUserLimits,
        UnknownPackage,
    >)
        ensures
            self.table().contains_key(package@) ==> result == Ok::<_, UnknownPackage>(
                effective_limits(self.table()[package@], overrides, self.caps()),
            ),
            !self.table().contains_key(package@) ==> result is Err && result->Err_0.package@
                == package@,
    {
        match self.packages.get(package) {
            Some(defaults) => Ok(self.resolve_with_defaults(defaults, overrides)),
            None => Err(UnknownPackage { package: package.clone() }),
        }
    }

    pub fn package_defaults(&self, package: &PackageName) -> (result: Result<
        EffectiveUserLimits,
        UnknownPackage,
    >)
        ensures
            self.table().contains_key(package@) ==> result == Ok::<_, UnknownPackage>(
                effective_limits(self.table()[package@], no_overrides(), self.caps()),
            ),
            !self.table().contains_key(package@) ==> result is Err && result->Err_0.package@
                == package@,
    {
        self.resolve(package, UserLimitOverrides::default())
    }

    pub fn superuser_limits(&self) -> (result: EffectiveUserLimits)
        ensures
            result == superuser_limits_of(self.caps()),
    {
        EffectiveUserLimits {
            max_active_jobs: self.hard_max_active_jobs,
            max_queued_jobs: self.hard_max_queued_jobs,
            daily_job_limit: None,
            max_upload_bytes: mebibytes_in_bytes(self.hard_max_upload_size_mb),
        }
    }

    /// Accepts an override that keeps to its global cap.
    pub fn validate_override(&self, name: UserLimitName, value: UserLimitValue) -> (result: Result<
        (),
        OverCap,
    >)
        ensures
            match (value, hard_limit(name, self.caps())) {
                (UserLimitValue::Value(number), Some(maximum)) if number > maximum => result
                    == Err::<(), _>(OverCap { limit: name, maximum }),
                _ => result is Ok,
            },
    {
        let number = match value {
            UserLimitValue::Default => return Ok(()),
            UserLimitValue::Value(number) => number,
        };
        let maximum: u64 = match name {
            UserLimitName::MaxActiveJobs => self.hard_max_active_jobs as u64,
            UserLimitName::MaxQueuedJobs => self.hard_max_queued_jobs as u64,
            UserLimitName::DailyJobLimit => return Ok(()),
            UserLimitName::MaxUploadSizeMb => self.hard_max_upload_size_mb,
        };
        if number > maximum {
            Err(OverCap { limit: name, maximum })
        } else {
            Ok(())
        }
    }

    fn resolve_with_defaults(
        &self,
        defaults: PackageLimitDefaults,
        overrides: UserLimitOverrides,
    ) -> (result: EffectiveUserLimits)
        ensures
            result == effective_limits(defaults, overrides, self.caps()),
    {
        let max_upload_size_mb: u64 = capped_u64_value(
            overrides.max_upload_size_mb,
            defaults.max_upload_size_mb,
            self.hard_max_upload_size_mb,
        );
        EffectiveUserLimits {
            max_active_jobs: capped_usize_value(
                overrides.max_active_jobs,
                defaults.max_active_jobs,
                self.hard_max_active_jobs,
            ),
            max_queued_jobs: capped_usize_value(
                overrides.max_queued_jobs,
                defaults.max_queued_jobs,
                self.hard_max_queued_jobs,
            ),
            daily_job_limit: match overrides.daily_job_limit {
                Some(value) => Some(value),
                None => defaults.daily_job_limit,
            },
            max_upload_bytes: mebibytes_in_bytes(max_upload_size_mb),
        }
    }
}

/// Whatever a package and the overrides of a user say, the limits that hold
/// stay within the global safety caps.
pub proof fn law_effective_limits_keep_to_caps(
    defaults: PackageLimitDefaults,
    overrides: UserLimitOverrides,
    caps: HardCaps,
)
    ensures
        effective_limits(defaults, overrides, caps).max_active_jobs <= caps.active_jobs,
        effective_limits(defaults, overrides, caps).max_queued_jobs <= caps.queued_jobs,
        effective_limits(defaults, overrides, caps).max_upload_bytes <= superuser_limits_of(
            caps,
        ).max_upload_bytes,
{
    let own = capped_u64(
        overrides.max_upload_size_mb,
        defaults.max_upload_size_mb,
        caps.upload_size_mb,
    );
    assert(own as nat * MEBIBYTE as nat <= caps.upload_size_mb as nat * MEBIBYTE as nat)
        by (nonlinear_arith)
        requires
            own <= caps.upload_size_mb,
    ;
}

/// The overrides of a user stay in force when the user changes packages: where
/// an override is set, the package does not matter.
pub proof fn law_overrides_survive_a_change_of_package(
    before: PackageLimitDefaults,
    after: PackageLimitDefaults,
    overrides: UserLimitOverrides,
    caps: HardCaps,
)
    ensures
        overrides.max_active_jobs is Some ==> effective_limits(
            before,
            overrides,
            caps,
        ).max_active_jobs == effective_limits(after, overrides, caps).max_active_jobs,
        overrides.max_queued_jobs is Some ==> effective_limits(
            before,
            overrides,
            caps,
        ).max_queued_jobs == effective_limits(after, overrides, caps).max_queued_jobs,
        overrides.daily_job_limit is Some ==> effective_limits(
            before,
            overrides,
            caps,
        ).daily_job_limit == effective_limits(after, overrides, caps).daily_job_limit,
        overrides.max_upload_size_mb is Some ==> effective_limits(
            before,
            overrides,
            caps,
        ).max_upload_bytes == effective_limits(after, overrides, caps).max_upload_bytes,
{
}

/// A limit that neither the user nor the package sets is the global capacity,
/// except the daily one, which is then unlimited.
pub proof fn law_unset_limits_inherit_the_caps(caps: HardCaps)
    ensures
        effective_limits(no_package_limits(), no_overrides(), caps) == superuser_limits_of(caps),
{
}

} // verus!
