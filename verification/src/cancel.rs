//! Cooperative cancellation.

use vstd::prelude::*;

verus! {

/// A token for work that can be cancelled. Copies of a token are the same
/// token: what happens to one of them has happened to all.
#[derive(Clone, Copy, Debug, PartialEq, Eq, Structural)]
pub struct CancellationToken {
    number: usize,
}

/// The tokens that were handed out, and which of them are cancelled.
/// Cancellation is permanent.
pub struct Cancellations {
    cancelled: Vec<bool>,
}

impl View for Cancellations {
    type V = Seq<bool>;

    /// For each token, by its number, whether it is cancelled.
    closed spec fn view(&self) -> Seq<bool> {
        self.cancelled@
    }
}

impl View for CancellationToken {
    type V = int;

    /// The number of the token.
    closed spec fn view(&self) -> int {
        self.number as int
    }
}

/// Whether a token was handed out.
pub open spec fn issued(tokens: Seq<bool>, token: CancellationToken) -> bool {
    0 <= token@ < tokens.len()
}

/// Whether a token is cancelled.
pub open spec fn stopped(tokens: Seq<bool>, token: CancellationToken) -> bool {
    issued(tokens, token) && tokens[token@]
}

/// The tokens after one of them is cancelled.
pub open spec fn with_stopped(tokens: Seq<bool>, token: CancellationToken) -> Seq<bool> {
    if issued(tokens, token) {
        tokens.update(token@, true)
    } else {
        tokens
    }
}

impl Cancellations {
    /// No token yet.
    pub fn new() -> (result: Cancellations)
        ensures
            result@ == Seq::<bool>::empty(),
    {
        Cancellations { cancelled: Vec::new() }
    }
}

impl Default for Cancellations {
    fn default() -> (result: Cancellations)
        ensures
            result@ == Seq::<bool>::empty(),
    {
        Cancellations::new()
    }
}

impl CancellationToken {
    /// A token that was not handed out before, and is not cancelled.
    pub fn new(tokens: &mut Cancellations) -> (result: CancellationToken)
        ensures
            final(tokens)@ == old(tokens)@.push(false),
            result@ == old(tokens)@.len(),
            !issued(old(tokens)@, result),
            issued(final(tokens)@, result),
            !stopped(final(tokens)@, result),
    {
        let number: usize = tokens.cancelled.len();
        tokens.cancelled.push(false);
        CancellationToken { number }
    }

    /// Cancels the work; whether those who wait for that have to be woken, which
    /// is so the first time only.
    pub fn cancel(self, tokens: &mut Cancellations) -> (wake: bool)
        requires
            issued(old(tokens)@, self),
        ensures
            final(tokens)@ == with_stopped(old(tokens)@, self),
            stopped(final(tokens)@, self),
            forall|other: CancellationToken|
                other != self ==> #[trigger] stopped(final(tokens)@, other) == stopped(
                    old(tokens)@,
                    other,
                ),
            wake == !stopped(old(tokens)@, self),
    {
        let wake = !tokens.cancelled[self.number];
        tokens.cancelled.set(self.number, true);
        assert forall|other: CancellationToken| other != self implies #[trigger] stopped(
            tokens@,
            other,
        ) == stopped(old(tokens)@, other) by {
            assert(other.number != self.number);
        }
        wake
    }

    pub fn is_cancelled(self, tokens: &Cancellations) -> (result: bool)
        ensures
            result == stopped(tokens@, self),
    {
        self.number < tokens.cancelled.len() && tokens.cancelled[self.number]
    }
}

// ---------------------------------------------------------------------------
// Laws
// ---------------------------------------------------------------------------

/// What can happen to the tokens.
pub ghost enum CancellationEvent {
    Issue,
    Cancel(CancellationToken),
}

/// The tokens after events, one after the other.
pub open spec fn tokens_after(tokens: Seq<bool>, events: Seq<CancellationEvent>) -> Seq<bool>
    decreases events.len(),
{
    if events.len() == 0 {
        tokens
    } else {
        let before = tokens_after(tokens, events.drop_last());
        match events.last() {
            CancellationEvent::Issue => before.push(false),
            CancellationEvent::Cancel(token) => with_stopped(before, token),
        }
    }
}

/// Cancelling twice is cancelling once.
pub proof fn law_cancellation_is_idempotent(tokens: Seq<bool>, token: CancellationToken)
    requires
        issued(tokens, token),
    ensures
        with_stopped(with_stopped(tokens, token), token) == with_stopped(tokens, token),
        stopped(tokens, token) ==> with_stopped(tokens, token) == tokens,
{
    assert(with_stopped(with_stopped(tokens, token), token) =~= with_stopped(tokens, token));
    if stopped(tokens, token) {
        assert(with_stopped(tokens, token) =~= tokens);
    }
}

/// A token is cancelled from the moment on at which one of its copies, which are
/// equal to it, is cancelled, for ever; until then it is not.
pub proof fn law_cancellation_is_shared_and_permanent(
    tokens: Seq<bool>,
    events: Seq<CancellationEvent>,
    token: CancellationToken,
)
    requires
        issued(tokens, token),
    ensures
        issued(tokens_after(tokens, events), token),
        stopped(tokens_after(tokens, events), token) == (stopped(tokens, token)
            || events.contains(CancellationEvent::Cancel(token))),
    decreases events.len(),
{
    if events.len() > 0 {
        let fewer = events.drop_last();
        let cancel = CancellationEvent::Cancel(token);
        law_cancellation_is_shared_and_permanent(tokens, fewer, token);
        assert(events =~= fewer.push(events.last()));
        if fewer.contains(cancel) {
            let i = choose|i: int| 0 <= i < fewer.len() && fewer[i] == cancel;
            assert(events[i] == cancel);
        }
        if events.contains(cancel) && events.last() != cancel {
            let i = choose|i: int| 0 <= i < events.len() && events[i] == cancel;
            assert(fewer[i] == cancel);
        }
        if events.last() == cancel {
            assert(events[events.len() - 1] == cancel);
        }
        if let CancellationEvent::Cancel(other) = events.last() {
            if other@ == token@ {
                assert(other.number == token.number);
            }
        }
    }
}

} // verus!
