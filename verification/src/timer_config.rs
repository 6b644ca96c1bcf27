//! The timer schedule: how long each step of a round may take.

use vstd::prelude::*;

use crate::error::{ConsensusError, ConsensusResult};
use crate::smr::{EventV, SmrEvent};
use crate::types::DurationConfig;

verus! {

/// Per-step delays, each a rational fraction `(numerator, denominator)` of
/// the height interval in milliseconds.
#[derive(Clone, Copy, Debug)]
pub struct TimerConfig {
    pub interval: u64,
    pub propose: (u64, u64),
    pub prevote: (u64, u64),
    pub precommit: (u64, u64),
    pub brake: (u64, u64),
}

/// The delay a ratio gives over an interval, in milliseconds.
pub open spec fn scaled(interval: u64, ratio: (u64, u64)) -> u64 {
    ((interval * ratio.0) / (ratio.1 as int)) as u64
}

impl TimerConfig {
    /// Well-formed: denominators are nonzero and no product overflows.
    pub open spec fn wf(self) -> bool {
        &&& self.propose.1 > 0
        &&& self.prevote.1 > 0
        &&& self.precommit.1 > 0
        &&& self.brake.1 > 0
        &&& self.interval * self.propose.0 <= u64::MAX
        &&& self.interval * self.prevote.0 <= u64::MAX
        &&& self.interval * self.precommit.0 <= u64::MAX
        &&& self.interval * self.brake.0 <= u64::MAX
    }

    /// The default schedule over a height interval in milliseconds:
    /// propose 24/10, prevote 10/10, precommit 5/10, brake 3/10.
    pub fn new(interval: u64) -> (r: TimerConfig)
        ensures
            r == (TimerConfig {
                interval,
                propose: (24u64, 10u64),
                prevote: (10u64, 10u64),
                precommit: (5u64, 10u64),
                brake: (3u64, 10u64),
            }),
            interval <= u64::MAX / 24 ==> r.wf(),
    {
        TimerConfig {
            interval,
            propose: (24, 10),
            prevote: (10, 10),
            precommit: (5, 10),
            brake: (3, 10),
        }
    }

    /// Swap the height interval; the ratios stand.
    pub fn set_interval(&mut self, interval: u64)
        ensures
            *final(self) == (TimerConfig { interval, ..*old(self) }),
    {
        self.interval = interval;
    }

    /// Swap the ratios; the interval stands. Every denominator is ten.
    pub fn update(&mut self, config: DurationConfig)
        ensures
            *final(self) == (TimerConfig {
                interval: old(self).interval,
                propose: (config.propose_ratio, 10u64),
                prevote: (config.prevote_ratio, 10u64),
                precommit: (config.precommit_ratio, 10u64),
                brake: (config.brake_ratio, 10u64),
            }),
    {
        self.propose = config.get_propose_config();
        self.prevote = config.get_prevote_config();
        self.precommit = config.get_precommit_config();
        self.brake = config.get_brake_config();
    }

    /// What `get_timeout` answers for each event.
    pub open spec fn spec_get_timeout(self, event: EventV) -> ConsensusResult<u64> {
        match event {
            EventV::NewRound { .. } => Ok(scaled(self.interval, self.propose)),
            EventV::Prevote { .. } => Ok(scaled(self.interval, self.prevote)),
            EventV::Precommit { .. } => Ok(scaled(self.interval, self.precommit)),
            EventV::Brake { .. } => Ok(scaled(self.interval, self.brake)),
            EventV::Commit { .. } => Err(ConsensusError::TimerErr),
        }
    }

    /// The delay in milliseconds to arm for a step event. A commit carries
    /// no timer.
    pub fn get_timeout(&self, event: SmrEvent) -> (r: ConsensusResult<u64>)
        requires
            self.wf(),
        ensures
            r == self.spec_get_timeout(event@),
    {
        match event {
            SmrEvent::NewRoundInfo { .. } => Ok(self.get_propose_timeout()),
            SmrEvent::PrevoteVote { .. } => Ok(self.get_prevote_timeout()),
            SmrEvent::PrecommitVote { .. } => Ok(self.get_precommit_timeout()),
            SmrEvent::Brake { .. } => Ok(self.get_brake_timeout()),
            SmrEvent::Commit { .. } => Err(ConsensusError::TimerErr),
        }
    }

    fn get_propose_timeout(&self) -> (r: u64)
        requires
            self.wf(),
        ensures
            r == scaled(self.interval, self.propose),
    {
        self.interval * self.propose.0 / self.propose.1
    }

    fn get_prevote_timeout(&self) -> (r: u64)
        requires
            self.wf(),
        ensures
            r == scaled(self.interval, self.prevote),
    {
        self.interval * self.prevote.0 / self.prevote.1
    }

    fn get_precommit_timeout(&self) -> (r: u64)
        requires
            self.wf(),
        ensures
            r == scaled(self.interval, self.precommit),
    {
        self.interval * self.precommit.0 / self.precommit.1
    }

    fn get_brake_timeout(&self) -> (r: u64)
        requires
            self.wf(),
        ensures
            r == scaled(self.interval, self.brake),
    {
        self.interval * self.brake.0 / self.brake.1
    }
}

} // verus!
