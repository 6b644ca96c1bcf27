//! The timer's cancellation filter.
//!
//! Every armed timeout carries the `(height, round, step)` it was armed
//! for. When the machine moves on, earlier tokens are cancelled: the
//! filter keeps the newest tuple seen and refuses to fire anything
//! strictly earlier. The state machine itself drops the rest of the stale
//! tokens, so a cancelled step's timeout is never delivered.

use vstd::prelude::*;

use crate::types::{step_order, Step};

verus! {

/// The `(height, round, step)` a timeout was armed for.
#[derive(Clone, Copy, Debug, PartialEq, Eq, Structural)]
pub struct TimerToken {
    pub height: u64,
    pub round: u64,
    pub step: Step,
}

/// The protocol order of two tokens: by height, then round, then step.
pub open spec fn token_lt(a: TimerToken, b: TimerToken) -> bool {
    ||| a.height < b.height
    ||| (a.height == b.height && a.round < b.round)
    ||| (a.height == b.height && a.round == b.round && step_order(a.step) < step_order(b.step))
}

/// The order is transitive.
pub proof fn lemma_token_lt_transitive(a: TimerToken, b: TimerToken, c: TimerToken)
    requires
        token_lt(a, b),
        !token_lt(c, b),
    ensures
        token_lt(a, c),
{
}

/// The cancellation filter: the newest `(height, round, step)` seen.
pub struct TimerFilter {
    pub current: TimerToken,
}

impl TimerFilter {
    /// A filter starting at a token.
    pub fn new(current: TimerToken) -> (r: TimerFilter)
        ensures
            r.current == current,
    {
        TimerFilter { current }
    }

    /// A newer step supersedes the filter's token; an older one leaves it.
    /// The filter's token never moves backwards.
    pub fn advance(&mut self, token: TimerToken)
        ensures
            final(self).current == (if token_lt(old(self).current, token) {
                token
            } else {
                old(self).current
            }),
            !token_lt(final(self).current, old(self).current),
    {
        if token_less(&self.current, &token) {
            self.current = token;
        }
    }

    /// Whether a fired token may be delivered: everything strictly earlier
    /// than the newest step is cancelled.
    pub fn should_fire(&self, token: &TimerToken) -> (r: bool)
        ensures
            r == !token_lt(*token, self.current),
    {
        !token_less(token, &self.current)
    }
}

/// Whether one token comes strictly before another.
fn token_less(a: &TimerToken, b: &TimerToken) -> (r: bool)
    ensures
        r == token_lt(*a, *b),
{
    if a.height != b.height {
        a.height < b.height
    } else if a.round != b.round {
        a.round < b.round
    } else {
        step_rank(a.step) < step_rank(b.step)
    }
}

/// The position of a step inside a round.
fn step_rank(s: Step) -> (r: u8)
    ensures
        r == step_order(s),
{
    match s {
        Step::Propose => 0,
        Step::Prevote => 1,
        Step::Precommit => 2,
        Step::Brake => 3,
        Step::Commit => 4,
    }
}

/// Once a step supersedes an earlier one, the earlier step's timeout is
/// cancelled for good: however far the filter advances afterwards, it
/// never lets that token fire again.
pub proof fn theorem_cancelled_stays_cancelled(
    stale: TimerToken,
    cancelled_at: TimerToken,
    later: TimerToken,
)
    requires
        token_lt(stale, cancelled_at),
        !token_lt(later, cancelled_at),
    ensures
        token_lt(stale, later),
{
    lemma_token_lt_transitive(stale, cancelled_at, later);
}

} // verus!
