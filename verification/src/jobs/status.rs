//! What a user reads about a job.

use vstd::prelude::*;

use crate::double::{as_double, divide_half_even, half_even, nearest_double};
use crate::jobs::progress::JobPhase;
use crate::number::{decimal, padded_decimal, write_decimal, write_padded, write_u64, write_usize};
use crate::time::Duration;

verus! {

// ---------------------------------------------------------------------------
// Durations
// ---------------------------------------------------------------------------

/// A span of whole seconds, in its two largest units.
pub open spec fn duration_text(seconds: nat) -> Seq<char> {
    if seconds < 60 {
        decimal(seconds) + "s"@
    } else if seconds < 3600 {
        decimal(seconds / 60) + "m "@ + decimal(seconds % 60) + "s"@
    } else {
        decimal(seconds / 3600) + "h "@ + decimal((seconds % 3600) / 60) + "m"@
    }
}

pub fn format_duration(duration: Duration) -> (result: String)
    ensures
        result@ == duration_text(duration.whole_seconds()),
{
    let seconds: u64 = duration.as_secs();
    if seconds < 60 {
        write_u64(seconds).concat("s")
    } else if seconds < 3600 {
        write_u64(seconds / 60).concat("m ").concat(write_u64(seconds % 60).as_str()).concat("s")
    } else {
        write_u64(seconds / 3600).concat("h ").concat(
            write_u64((seconds % 3600) / 60).as_str(),
        ).concat("m")
    }
}

// ---------------------------------------------------------------------------
// Sizes
// ---------------------------------------------------------------------------

/// The bytes in a unit, and its name.
pub open spec fn size_unit(bytes: nat) -> (nat, Seq<char>) {
    if bytes < 1_048_576 {
        (1_024, " KiB"@)
    } else if bytes < 1_073_741_824 {
        (1_048_576, " MiB"@)
    } else if bytes < 1_099_511_627_776 {
        (1_073_741_824, " GiB"@)
    } else {
        (1_099_511_627_776, " TiB"@)
    }
}

/// `over / under`, rounded half to even to that many decimals.
pub open spec fn rounded_text(over: nat, under: nat, decimals: nat) -> Seq<char> {
    if decimals == 0 {
        decimal(half_even(over, under))
    } else if decimals == 1 {
        let tenths = half_even(over * 10, under);
        decimal(tenths / 10) + "."@ + padded_decimal(tenths % 10, 1)
    } else {
        let hundredths = half_even(over * 100, under);
        decimal(hundredths / 100) + "."@ + padded_decimal(hundredths % 100, 2)
    }
}

/// A number of bytes in the largest unit of which it holds one, to about three
/// digits. It is rounded to a double first, which changes it only from 2^53
/// upwards.
pub open spec fn size_text(bytes: nat) -> Seq<char> {
    if bytes < 1024 {
        decimal(bytes) + " B"@
    } else {
        let value = as_double(bytes);
        let (size, name) = size_unit(value);
        let decimals: nat = if value >= 100 * size {
            0
        } else if value >= 10 * size {
            1
        } else {
            2
        };
        rounded_text(value, size, decimals) + name
    }
}

/// `over / under` to that many decimals.
pub fn write_rounded(over: u128, under: u128, decimals: u8) -> (result: String)
    requires
        0 < under,
        over < 0x1_0000_0000_0000_0000_0000_0000_0000,
        decimals <= 2,
    ensures
        result@ == rounded_text(over as nat, under as nat, decimals as nat),
{
    if decimals == 0 {
        write_decimal(divide_half_even(over, under))
    } else if decimals == 1 {
        let tenths: u128 = divide_half_even(over * 10, under);
        write_decimal(tenths / 10).concat(".").concat(write_padded(tenths % 10, 1).as_str())
    } else {
        let hundredths: u128 = divide_half_even(over * 100, under);
        write_decimal(hundredths / 100).concat(".").concat(
            write_padded(hundredths % 100, 2).as_str(),
        )
    }
}

pub fn format_bytes(bytes: u64) -> (result: String)
    ensures
        result@ == size_text(bytes as nat),
{
    if bytes < 1024 {
        return write_u64(bytes).concat(" B");
    }
    let value: u128 = nearest_double(bytes);
    let (size, name): (u128, &'static str) = if value < 1_048_576 {
        (1_024, " KiB")
    } else if value < 1_073_741_824 {
        (1_048_576, " MiB")
    } else if value < 1_099_511_627_776 {
        (1_073_741_824, " GiB")
    } else {
        (1_099_511_627_776, " TiB")
    };
    let decimals: u8 = if value >= 100 * size {
        0
    } else if value >= 10 * size {
        1
    } else {
        2
    };
    write_rounded(value, size, decimals).concat(name)
}

// ---------------------------------------------------------------------------
// Phases
// ---------------------------------------------------------------------------

/// How much of an upload is done, in whole percent; an empty one is done. The
/// number has 64 bits: it wraps around where far more than the size was sent.
pub open spec fn upload_percent(uploaded: nat, size: nat) -> nat {
    if size == 0 {
        100
    } else {
        (uploaded * 100 / size) % 0x1_0000_0000_0000_0000
    }
}

/// How the line of a job begins.
pub open spec fn job_text(id: nat) -> Seq<char> {
    "Job #"@ + decimal(id)
}

pub open spec fn uploading_text(id: nat, current: nat, total: nat, bytes: Option<(u64, u64)>) -> Seq<
    char,
> {
    let item = job_text(id) + " is uploading item "@ + decimal(current) + "/"@ + decimal(total);
    match bytes {
        Some((uploaded, size)) => {
            let left: nat = if uploaded <= size {
                (size - uploaded) as nat
            } else {
                0
            };
            item + ": "@ + decimal(upload_percent(uploaded as nat, size as nat)) + "% • "@
                + size_text(left) + " left."@
        },
        None => item + "."@,
    }
}

/// The line that stands for a job.
pub open spec fn phase_text(id: nat, phase: JobPhase, failure: Option<Seq<char>>) -> Seq<char> {
    let job = job_text(id);
    match phase {
        JobPhase::Queued => job + " queued."@,
        JobPhase::Downloading { percent: Some(percent) } => job + " is downloading: "@ + decimal(
            percent as nat,
        ) + "%."@,
        JobPhase::Downloading { percent: None } => job + " is downloading."@,
        JobPhase::Inspecting => job + " is inspecting media."@,
        JobPhase::Transcoding { percent: Some(percent) } => job
            + " is transcoding compatible media: "@ + decimal(percent as nat) + "%."@,
        JobPhase::Transcoding { percent: None } => job + " is transcoding compatible media."@,
        JobPhase::Thumbnailing => job + " is preparing a thumbnail."@,
        JobPhase::Uploading { current, total, bytes } => uploading_text(
            id,
            current as nat,
            total as nat,
            bytes,
        ),
        JobPhase::Finalizing => job + " is finalizing delivery."@,
        JobPhase::Cancelling => job + " is cancelling…"@,
        JobPhase::Cancelled => job + " was cancelled."@,
        JobPhase::Completed => match failure {
            Some(reason) => job + " completed with warnings: "@ + reason,
            None => job + " completed."@,
        },
        JobPhase::Failed => match failure {
            Some(reason) => job + " failed: "@ + reason,
            None => job + " failed."@,
        },
    }
}

pub fn render_uploading(id: u64, current: usize, total: usize, bytes: Option<(u64, u64)>) -> (result:
    String)
    ensures
        result@ == uploading_text(id as nat, current as nat, total as nat, bytes),
{
    let item = "Job #".to_owned().concat(write_u64(id).as_str()).concat(
        " is uploading item ",
    ).concat(write_usize(current).as_str()).concat("/").concat(write_usize(total).as_str());
    match bytes {
        Some((uploaded, size)) => {
            let percentage: u64 = if size == 0 {
                100
            } else {
                let exact: u128 = uploaded as u128 * 100 / size as u128;
                assert(exact as u64 == exact % 0x1_0000_0000_0000_0000) by (bit_vector);
                #[verifier::truncate]
                (exact as u64)
            };
            let left: u64 = if uploaded <= size {
                size - uploaded
            } else {
                0
            };
            item.concat(": ").concat(write_u64(percentage).as_str()).concat("% • ").concat(
                format_bytes(left).as_str(),
            ).concat(" left.")
        },
        None => item.concat("."),
    }
}

/// The line that stands for a job.
pub fn render(id: u64, phase: &JobPhase, failure: Option<&str>) -> (result: String)
    ensures
        result@ == phase_text(
            id as nat,
            *phase,
            match failure {
                Some(reason) => Some(reason@),
                None => None,
            },
        ),
{
    let job = "Job #".to_owned().concat(write_u64(id).as_str());
    match phase {
        JobPhase::Queued => job.concat(" queued."),
        JobPhase::Downloading { percent: Some(percent) } => job.concat(
            " is downloading: ",
        ).concat(write_u64(*percent as u64).as_str()).concat("%."),
        JobPhase::Downloading { percent: None } => job.concat(" is downloading."),
        JobPhase::Inspecting => job.concat(" is inspecting media."),
        JobPhase::Transcoding { percent: Some(percent) } => job.concat(
            " is transcoding compatible media: ",
        ).concat(write_u64(*percent as u64).as_str()).concat("%."),
        JobPhase::Transcoding { percent: None } => job.concat(" is transcoding compatible media."),
        JobPhase::Thumbnailing => job.concat(" is preparing a thumbnail."),
        JobPhase::Uploading { current, total, bytes } => render_uploading(
            id,
            *current,
            *total,
            *bytes,
        ),
        JobPhase::Finalizing => job.concat(" is finalizing delivery."),
        JobPhase::Cancelling => job.concat(" is cancelling…"),
        JobPhase::Cancelled => job.concat(" was cancelled."),
        JobPhase::Completed => match failure {
            Some(reason) => job.concat(" completed with warnings: ").concat(reason),
            None => job.concat(" completed."),
        },
        JobPhase::Failed => match failure {
            Some(reason) => job.concat(" failed: ").concat(reason),
            None => job.concat(" failed."),
        },
    }
}

} // verus!
