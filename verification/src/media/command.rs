//! Running programs: what is kept of their output, and what counts as their
//! outcome.

use vstd::prelude::*;

use crate::number::{decimal, write_u64};
use crate::text::{decode_lossy, lossy_text, text_list, texts};
use crate::time::Duration;

verus! {

/// How many bytes of a program's output are kept.
pub const OUTPUT_LIMIT: usize = 65_536;

// ---------------------------------------------------------------------------
// Output
// ---------------------------------------------------------------------------

/// The last `count` bytes, or all of them where there are fewer.
pub open spec fn tail(bytes: Seq<u8>, count: nat) -> Seq<u8> {
    if bytes.len() <= count {
        bytes
    } else {
        bytes.skip(bytes.len() - count)
    }
}

/// The end of a stream of output.
pub struct BoundedOutput {
    bytes: Vec<u8>,
    seen: Ghost<Seq<u8>>,
}

impl BoundedOutput {
    /// Everything that has been read.
    pub closed spec fn seen(self) -> Seq<u8> {
        self.seen@
    }

    #[verifier::type_invariant]
    spec fn is_tail(self) -> bool {
        &&& self.bytes@.len() <= 2 * OUTPUT_LIMIT
        &&& self.bytes@ == tail(self.seen@, self.bytes@.len())
        &&& self.bytes@ == self.seen@ || self.bytes@.len() >= OUTPUT_LIMIT
    }

    pub fn new() -> (result: BoundedOutput)
        ensures
            result.seen() == Seq::<u8>::empty(),
    {
        BoundedOutput { bytes: Vec::new(), seen: Ghost(Seq::empty()) }
    }

    /// Takes over what has been read next.
    pub fn extend(&mut self, chunk: &[u8])
        ensures
            final(self).seen() == old(self).seen() + chunk@,
    {
        proof {
            use_type_invariant(&*self);
        }
        let ghost seen = self.seen@;
        let mut taken = BoundedOutput::new();
        std::mem::swap(self, &mut taken);
        let mut bytes = taken.bytes;
        let ghost before = bytes@;
        let mut i: usize = 0;
        assert(bytes@ =~= before + chunk@.take(0));
        while i < chunk.len()
            invariant
                i <= chunk@.len(),
                bytes@ == before + chunk@.take(i as int),
            decreases chunk@.len() - i,
        {
            bytes.push(chunk[i]);
            assert(bytes@ =~= before + chunk@.take(i + 1));
            i = i + 1;
        }
        assert(chunk@.take(i as int) =~= chunk@);
        let ghost all = seen + chunk@;
        assert(bytes@ =~= tail(all, bytes@.len()));
        if bytes.len() > 2 * OUTPUT_LIMIT {
            let kept = last_bytes(&bytes, OUTPUT_LIMIT);
            assert(kept@ =~= tail(all, kept@.len()));
            *self = BoundedOutput { bytes: kept, seen: Ghost(all) };
        } else {
            assert(before == seen ==> bytes@ == all);
            *self = BoundedOutput { bytes, seen: Ghost(all) };
        }
    }

    /// What is kept: the last `OUTPUT_LIMIT` bytes of everything.
    pub fn finish(self) -> (result: Vec<u8>)
        ensures
            result@ == tail(self.seen(), OUTPUT_LIMIT as nat),
    {
        proof {
            use_type_invariant(&self);
        }
        let kept = last_bytes(&self.bytes, OUTPUT_LIMIT);
        assert(kept@ =~= tail(self.seen(), OUTPUT_LIMIT as nat));
        kept
    }
}

/// The last `count` bytes.
fn last_bytes(bytes: &Vec<u8>, count: usize) -> (result: Vec<u8>)
    ensures
        result@ == tail(bytes@, count as nat),
{
    let from: usize = if bytes.len() <= count {
        0
    } else {
        bytes.len() - count
    };
    let mut result: Vec<u8> = Vec::new();
    let mut i: usize = from;
    assert(result@ =~= bytes@.subrange(from as int, from as int));
    while i < bytes.len()
        invariant
            from <= i <= bytes@.len(),
            result@ == bytes@.subrange(from as int, i as int),
        decreases bytes@.len() - i,
    {
        result.push(bytes[i]);
        assert(result@ =~= bytes@.subrange(from as int, i + 1));
        i = i + 1;
    }
    assert(result@ =~= tail(bytes@, count as nat));
    result
}

// ---------------------------------------------------------------------------
// Outcomes
// ---------------------------------------------------------------------------

/// How the run of a program ended.
#[derive(Debug, PartialEq, Eq)]
pub enum CommandOutcome {
    Finished { success: bool, stdout: String, stderr: String },
    Cancelled,
    TimedOut,
}

pub ghost enum OutcomeView {
    Finished { success: bool, stdout: Seq<char>, stderr: Seq<char> },
    Cancelled,
    TimedOut,
}

impl View for CommandOutcome {
    type V = OutcomeView;

    open spec fn view(&self) -> OutcomeView {
        match self {
            CommandOutcome::Finished { success, stdout, stderr } => OutcomeView::Finished {
                success: *success,
                stdout: stdout@,
                stderr: stderr@,
            },
            CommandOutcome::Cancelled => OutcomeView::Cancelled,
            CommandOutcome::TimedOut => OutcomeView::TimedOut,
        }
    }
}

/// Why a program stopped.
#[derive(Clone, Copy, Debug, PartialEq, Eq, Structural)]
pub enum StopReason {
    Finished,
    Cancelled,
    TimedOut,
}

/// Why a program stops, if it does: a cancellation counts before a timeout, and
/// that before the end of the program.
pub fn stop_reason(cancelled: bool, timed_out: bool, ended: bool) -> (result: Option<StopReason>)
    ensures
        cancelled ==> result == Some(StopReason::Cancelled),
        !cancelled && timed_out ==> result == Some(StopReason::TimedOut),
        !cancelled && !timed_out && ended ==> result == Some(StopReason::Finished),
        !cancelled && !timed_out && !ended ==> result is None,
{
    if cancelled {
        Some(StopReason::Cancelled)
    } else if timed_out {
        Some(StopReason::TimedOut)
    } else if ended {
        Some(StopReason::Finished)
    } else {
        None
    }
}

/// The outcome of a program that could not be started.
pub fn not_started(error: String) -> (result: CommandOutcome)
    ensures
        result@ == (OutcomeView::Finished {
            success: false,
            stdout: Seq::empty(),
            stderr: error@,
        }),
{
    CommandOutcome::Finished { success: false, stdout: String::new(), stderr: error }
}

/// How long to wait for the rest of a program's output.
pub fn collect_timeout(reason: StopReason) -> (result: Duration)
    ensures
        result == Duration::of(
            if reason == StopReason::Finished {
                5
            } else {
                2
            },
            0,
        ),
{
    match reason {
        StopReason::Finished => Duration::from_secs(5),
        _ => Duration::from_secs(2),
    }
}

/// The outcome of a program: `status` says whether it succeeded, or why that is
/// not known.
pub open spec fn concluded(
    reason: StopReason,
    status: Result<bool, Seq<char>>,
    stdout: Seq<char>,
    stderr: Seq<char>,
) -> OutcomeView {
    match reason {
        StopReason::Cancelled => OutcomeView::Cancelled,
        StopReason::TimedOut => OutcomeView::TimedOut,
        StopReason::Finished => match status {
            Ok(success) => OutcomeView::Finished { success, stdout, stderr },
            Err(error) => OutcomeView::Finished { success: false, stdout, stderr: error },
        },
    }
}

/// The outcome of a program whose output is known as text.
pub fn conclude_with(
    reason: StopReason,
    status: Result<bool, String>,
    stdout: String,
    stderr: String,
) -> (result: CommandOutcome)
    ensures
        result@ == concluded(
            reason,
            match status {
                Ok(success) => Ok(success),
                Err(error) => Err(error@),
            },
            stdout@,
            stderr@,
        ),
{
    match reason {
        StopReason::Cancelled => CommandOutcome::Cancelled,
        StopReason::TimedOut => CommandOutcome::TimedOut,
        StopReason::Finished => match status {
            Ok(success) => CommandOutcome::Finished { success, stdout, stderr },
            Err(error) => CommandOutcome::Finished { success: false, stdout, stderr: error },
        },
    }
}

/// The outcome of a program.
pub fn conclude(
    reason: StopReason,
    status: Result<bool, String>,
    stdout: &[u8],
    stderr: &[u8],
) -> (result: CommandOutcome)
    ensures
        result@ == concluded(
            reason,
            match status {
                Ok(success) => Ok(success),
                Err(error) => Err(error@),
            },
            lossy_text(stdout@),
            lossy_text(stderr@),
        ),
{
    conclude_with(reason, status, decode_lossy(stdout), decode_lossy(stderr))
}

/// The arguments of the program that ends a group of processes at once.
pub fn kill_arguments(pid: u32) -> (result: Vec<String>)
    ensures
        texts(result@) == seq!["-KILL"@, "--"@, "-"@ + decimal(pid as nat)],
{
    let group = "-".to_owned().concat(write_u64(pid as u64).as_str());
    let result = text_list(&["-KILL", "--", group.as_str()]);
    assert(texts(result@) =~= seq!["-KILL"@, "--"@, "-"@ + decimal(pid as nat)]);
    result
}

// ---------------------------------------------------------------------------
// Laws
// ---------------------------------------------------------------------------

/// A cancelled or timed out program never counts as finished, whatever it has
/// printed or returned.
pub proof fn law_interrupted_programs_do_not_finish(
    reason: StopReason,
    status: Result<bool, Seq<char>>,
    stdout: Seq<char>,
    stderr: Seq<char>,
)
    requires
        reason != StopReason::Finished,
    ensures
        !(concluded(reason, status, stdout, stderr) is Finished),
{
}

/// What is kept of the output is its end, and never more than the limit.
pub proof fn law_output_is_bounded(bytes: Seq<u8>)
    ensures
        tail(bytes, OUTPUT_LIMIT as nat).len() <= OUTPUT_LIMIT,
        tail(bytes, OUTPUT_LIMIT as nat).is_suffix_of(bytes),
{
}

} // verus!
