//! Where a job keeps its files.

use vstd::prelude::*;

use crate::number::{decimal, digit_char, padded_hex, write_hex, write_u64};
use crate::paths::{join_path, joined_path};

verus! {

/// `rand::random::<u64>`: any number of 64 bits.
#[verifier::external_body]
pub(crate) fn random_number() -> u64 {
    rand::random::<u64>()
}

// ---------------------------------------------------------------------------
// Files
// ---------------------------------------------------------------------------

/// A file in `directory` that carries `number` in its name.
pub open spec fn numbered_file(directory: Seq<char>, extension: Seq<char>, number: u64) -> Seq<char> {
    joined_path(directory, "media-"@ + padded_hex(number as nat, 16) + extension)
}

/// A file in `directory` that carries `number` in its name.
pub fn file_in(directory: &str, extension: &str, number: u64) -> (result: String)
    ensures
        result@ == numbered_file(directory@, extension@, number),
{
    let name = "media-".to_owned().concat(write_hex(number, 16).as_str()).concat(extension);
    join_path(directory, name.as_str())
}

/// A file in `directory` with a name by chance.
pub fn random_file_in(directory: &str, extension: &str) -> (result: String)
    ensures
        exists|number: u64| result@ == #[trigger] numbered_file(directory@, extension@, number),
{
    let number: u64 = random_number();
    file_in(directory, extension, number)
}

// ---------------------------------------------------------------------------
// Directories
// ---------------------------------------------------------------------------

/// The directory of one job.
pub struct JobWorkspace {
    path: String,
    cleaned: bool,
}

/// How the removal of a directory went.
#[derive(Clone, Copy, Debug, PartialEq, Eq, Structural)]
pub enum Removal {
    Removed,
    NotFound,
    Refused,
}

/// The directory of the job `id` that carries `number` in its name.
pub open spec fn workspace_path(temporary: Seq<char>, id: u64, number: u64) -> Seq<char> {
    joined_path(
        joined_path(temporary, "endgame"@),
        "job-"@ + decimal(id as nat) + "-"@ + padded_hex(number as nat, 16),
    )
}

impl JobWorkspace {
    /// Where the directory lies.
    pub closed spec fn place(self) -> Seq<char> {
        self.path@
    }

    /// Whether the directory is known to be gone.
    pub closed spec fn gone(self) -> bool {
        self.cleaned
    }

    /// The directory of the job `job_id` below `temporary` that carries
    /// `number` in its name.
    pub fn numbered(temporary: &str, job_id: u64, number: u64) -> (result: JobWorkspace)
        ensures
            result.place() == workspace_path(temporary@, job_id, number),
            !result.gone(),
    {
        let name = "job-".to_owned().concat(write_u64(job_id).as_str()).concat("-").concat(
            write_hex(number, 16).as_str(),
        );
        let path = join_path(join_path(temporary, "endgame").as_str(), name.as_str());
        JobWorkspace { path, cleaned: false }
    }

    /// A directory for the job `job_id` below `temporary`, with a name by
    /// chance.
    pub fn create(temporary: &str, job_id: u64) -> (result: JobWorkspace)
        ensures
            exists|number: u64|
                result.place() == #[trigger] workspace_path(temporary@, job_id, number),
            !result.gone(),
    {
        let number: u64 = random_number();
        JobWorkspace::numbered(temporary, job_id, number)
    }

    pub fn path(&self) -> (result: &str)
        ensures
            result@ == self.place(),
    {
        self.path.as_str()
    }

    /// Takes note of how the removal of the directory went.
    pub fn cleanup(&mut self, removal: Removal)
        ensures
            final(self).place() == old(self).place(),
            final(self).gone() == (old(self).gone() || removal != Removal::Refused),
    {
        match removal {
            Removal::Removed | Removal::NotFound => {
                self.cleaned = true;
            },
            Removal::Refused => {},
        }
    }

    /// Whether the directory is known to be gone.
    pub fn is_cleaned(&self) -> (result: bool)
        ensures
            result == self.gone(),
    {
        self.cleaned
    }
}

// ---------------------------------------------------------------------------
// Laws
// ---------------------------------------------------------------------------

/// Sixteen to `exponent`.
spec fn sixteen_to(exponent: nat) -> nat
    decreases exponent,
{
    if exponent == 0 {
        1
    } else {
        16 * sixteen_to((exponent - 1) as nat)
    }
}

/// Hexadecimal digits tell numbers apart.
proof fn lemma_hex_tells_apart(one: nat, other: nat, width: nat)
    requires
        one < sixteen_to(width),
        other < sixteen_to(width),
        padded_hex(one, width) == padded_hex(other, width),
    ensures
        one == other,
    decreases width,
{
    if width > 0 {
        let shorter = (width - 1) as nat;
        let first = padded_hex(one, width);
        let second = padded_hex(other, width);
        assert(first.last() == second.last());
        assert(first.drop_last() =~= padded_hex(one / 16, shorter));
        assert(second.drop_last() =~= padded_hex(other / 16, shorter));
        assert(digit_char(one % 16) == digit_char(other % 16));
        lemma_hex_tells_apart(one / 16, other / 16, shorter);
    }
}

/// The names of directories differ where their numbers differ: two jobs never
/// share a directory unless chance gives the same number twice.
pub proof fn law_workspaces_are_private(temporary: Seq<char>, id: u64, one: u64, other: u64)
    requires
        one != other,
    ensures
        workspace_path(temporary, id, one) != workspace_path(temporary, id, other),
{
    let base = joined_path(temporary, "endgame"@);
    let prefix = "job-"@ + decimal(id as nat) + "-"@;
    let first = padded_hex(one as nat, 16);
    let second = padded_hex(other as nat, 16);
    reveal_strlit("job-");
    reveal_strlit("endgame");
    lemma_hex_length(one as nat, 16);
    lemma_hex_length(other as nat, 16);
    if workspace_path(temporary, id, one) == workspace_path(temporary, id, other) {
        let left = workspace_path(temporary, id, one);
        let right = workspace_path(temporary, id, other);
        assert(!crate::paths::is_absolute_path(prefix + first)) by {
            assert((prefix + first)[0] == 'j');
        }
        assert(!crate::paths::is_absolute_path(prefix + second)) by {
            assert((prefix + second)[0] == 'j');
        }
        assert(left.skip(left.len() - 16) =~= first);
        assert(right.skip(right.len() - 16) =~= second);
        assert(sixteen_to(16) == 0x1_0000_0000_0000_0000) by {
            reveal_with_fuel(sixteen_to, 17);
        }
        lemma_hex_tells_apart(one as nat, other as nat, 16);
    }
}

proof fn lemma_hex_length(value: nat, width: nat)
    ensures
        padded_hex(value, width).len() == width,
    decreases width,
{
    if width > 0 {
        lemma_hex_length(value / 16, (width - 1) as nat);
    }
}

} // verus!
