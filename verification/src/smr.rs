//! The round state machine.
//!
//! A pure machine: triggers in, events out, no clocks and no cryptography.
//! It owns the current `(height, round, step, lock)` tuple. Its whole
//! behaviour is the spec function [`spec_process`]; the executable
//! [`Smr::process`] is proved to follow it exactly.

use vstd::prelude::*;

use crate::types::{is_nil, BlockHash, Step};

verus! {

/// A lock: the node's commitment to a block from a prevote quorum
/// certificate of an earlier round in the same height.
#[derive(Clone, Debug)]
pub struct Lock {
    pub round: u64,
    pub block_hash: BlockHash,
}

/// What the state machine consumes.
#[derive(Clone, Debug)]
pub enum SmrTrigger {
    /// A new height opens; the previous one committed.
    NewHeight { height: u64 },
    /// A proposal for `(height, round)` was observed, with the round of its
    /// embedded proof of lock, if it carries one.
    Proposal { height: u64, round: u64, block_hash: BlockHash, lock_round: Option<u64> },
    /// A prevote quorum certificate for `(height, round)`.
    PrevoteQc { height: u64, round: u64, block_hash: BlockHash },
    /// A precommit quorum certificate for `(height, round)`.
    PrecommitQc { height: u64, round: u64, block_hash: BlockHash },
    /// A choke quorum certificate: the network abandoned `round`.
    ChokeQc { height: u64, round: u64 },
    /// A step timer fired for `(height, round, step)`.
    Timeout { height: u64, round: u64, step: Step },
    /// A single prevote arrived; carries no state change.
    PrevoteArrived,
    /// A single precommit arrived; carries no state change.
    PrecommitArrived,
}

/// What the state machine emits.
#[derive(Clone, Debug)]
pub enum SmrEvent {
    /// A round opened; carries the lock to put into an own proposal.
    NewRoundInfo { height: u64, round: u64, lock: Option<Lock> },
    /// Cast a prevote.
    PrevoteVote { height: u64, round: u64, block_hash: BlockHash },
    /// Cast a precommit.
    PrecommitVote { height: u64, round: u64, block_hash: BlockHash },
    /// Too many rounds failed; ask the network to choke.
    Brake { height: u64, round: u64 },
    /// A block is decided at this height.
    Commit { height: u64, block_hash: BlockHash },
}

/// The mathematical value of a lock.
pub ghost struct LockV {
    pub round: u64,
    pub hash: Seq<u8>,
}

/// The mathematical value of the machine.
pub ghost struct SmrV {
    pub height: u64,
    pub round: u64,
    pub step: Step,
    pub lock: Option<LockV>,
    /// Consecutive failed rounds before the machine brakes; zero disables.
    pub brake_after: u64,
    /// Consecutive failed rounds seen so far in this height.
    pub fails: u64,
}

/// The mathematical value of a trigger.
pub ghost enum TriggerV {
    NewHeight { height: u64 },
    Proposal { height: u64, round: u64, hash: Seq<u8>, lock_round: Option<u64> },
    PrevoteQc { height: u64, round: u64, hash: Seq<u8> },
    PrecommitQc { height: u64, round: u64, hash: Seq<u8> },
    ChokeQc { height: u64, round: u64 },
    Timeout { height: u64, round: u64, step: Step },
    PrevoteArrived,
    PrecommitArrived,
}

/// The mathematical value of an event.
pub ghost enum EventV {
    NewRound { height: u64, round: u64, lock: Option<LockV> },
    Prevote { height: u64, round: u64, hash: Seq<u8> },
    Precommit { height: u64, round: u64, hash: Seq<u8> },
    Brake { height: u64, round: u64 },
    Commit { height: u64, hash: Seq<u8> },
}

impl View for Lock {
    type V = LockV;

    open spec fn view(&self) -> LockV {
        LockV { round: self.round, hash: self.block_hash@ }
    }
}

/// The view of an optional lock.
pub open spec fn lock_view(l: Option<Lock>) -> Option<LockV> {
    match l {
        Some(l) => Some(l@),
        None => None,
    }
}

impl View for SmrTrigger {
    type V = TriggerV;

    open spec fn view(&self) -> TriggerV {
        match self {
            SmrTrigger::NewHeight { height } => TriggerV::NewHeight { height: *height },
            SmrTrigger::Proposal { height, round, block_hash, lock_round } => TriggerV::Proposal {
                height: *height,
                round: *round,
                hash: block_hash@,
                lock_round: *lock_round,
            },
            SmrTrigger::PrevoteQc { height, round, block_hash } => TriggerV::PrevoteQc {
                height: *height,
                round: *round,
                hash: block_hash@,
            },
            SmrTrigger::PrecommitQc { height, round, block_hash } => TriggerV::PrecommitQc {
                height: *height,
                round: *round,
                hash: block_hash@,
            },
            SmrTrigger::ChokeQc { height, round } => TriggerV::ChokeQc {
                height: *height,
                round: *round,
            },
            SmrTrigger::Timeout { height, round, step } => TriggerV::Timeout {
                height: *height,
                round: *round,
                step: *step,
            },
            SmrTrigger::PrevoteArrived => TriggerV::PrevoteArrived,
            SmrTrigger::PrecommitArrived => TriggerV::PrecommitArrived,
        }
    }
}

impl View for SmrEvent {
    type V = EventV;

    open spec fn view(&self) -> EventV {
        match self {
            SmrEvent::NewRoundInfo { height, round, lock } => EventV::NewRound {
                height: *height,
                round: *round,
                lock: lock_view(*lock),
            },
            SmrEvent::PrevoteVote { height, round, block_hash } => EventV::Prevote {
                height: *height,
                round: *round,
                hash: block_hash@,
            },
            SmrEvent::PrecommitVote { height, round, block_hash } => EventV::Precommit {
                height: *height,
                round: *round,
                hash: block_hash@,
            },
            SmrEvent::Brake { height, round } => EventV::Brake { height: *height, round: *round },
            SmrEvent::Commit { height, block_hash } => EventV::Commit {
                height: *height,
                hash: block_hash@,
            },
        }
    }
}

/// Opening a new height: everything of the old height is dropped.
pub open spec fn spec_new_height(s: SmrV, height: u64) -> (SmrV, Seq<EventV>) {
    if height > s.height {
        (
            SmrV { height, round: 0, step: Step::Propose, lock: None, fails: 0, ..s },
            seq![EventV::NewRound { height, round: 0, lock: None }],
        )
    } else {
        (s, seq![])
    }
}

/// What a node prevotes for on seeing a proposal, under the lock rule:
/// unlocked it prevotes the proposal; locked on the same block it prevotes
/// it; locked on another block it prevotes its lock, unless the proposal
/// carries a proof of lock from a later round within this height, which
/// unlocks it.
pub open spec fn spec_prevote_choice(
    lock: Option<LockV>,
    hash: Seq<u8>,
    lock_round: Option<u64>,
    round: u64,
) -> (Option<LockV>, Seq<u8>) {
    match lock {
        None => (None, hash),
        Some(l) => {
            if l.hash == hash {
                (Some(l), hash)
            } else if unlockable(l, lock_round, round) {
                (None, hash)
            } else {
                (Some(l), l.hash)
            }
        },
    }
}

/// Whether a proposal's proof of lock justifies dropping an own lock:
/// it must come from a round strictly after the lock's and not after the
/// current one.
pub open spec fn unlockable(l: LockV, lock_round: Option<u64>, round: u64) -> bool {
    match lock_round {
        Some(plr) => l.round < plr && plr <= round,
        None => false,
    }
}

/// A proposal for the current round, in the propose step, moves the machine
/// to the prevote step and casts the prevote the lock rule picks.
pub open spec fn spec_proposal(
    s: SmrV,
    height: u64,
    round: u64,
    hash: Seq<u8>,
    lock_round: Option<u64>,
) -> (SmrV, Seq<EventV>) {
    if height == s.height && round == s.round && s.step is Propose {
        let (lock2, vote_hash) = spec_prevote_choice(s.lock, hash, lock_round, round);
        (
            SmrV { step: Step::Prevote, lock: lock2, ..s },
            seq![EventV::Prevote { height, round, hash: vote_hash }],
        )
    } else {
        (s, seq![])
    }
}

/// How a prevote quorum certificate changes the lock: it locks its block,
/// except that a lock on a different block from the same or a later round
/// stands.
pub open spec fn spec_relock(lock: Option<LockV>, round: u64, hash: Seq<u8>) -> Option<LockV> {
    match lock {
        None => Some(LockV { round, hash }),
        Some(l) => {
            if l.hash == hash || l.round < round {
                Some(LockV { round, hash })
            } else {
                Some(l)
            }
        },
    }
}

/// A prevote quorum certificate for the current round, seen before the
/// precommit step is done: a certificate for a block locks it and
/// precommits it; a nil certificate precommits nil and leaves the lock.
pub open spec fn spec_prevote_qc(s: SmrV, height: u64, round: u64, hash: Seq<u8>) -> (
    SmrV,
    Seq<EventV>,
) {
    if height == s.height && round == s.round && (s.step is Propose || s.step is Prevote
        || s.step is Brake) {
        if is_nil(hash) {
            (
                SmrV { step: Step::Precommit, ..s },
                seq![EventV::Precommit { height, round, hash }],
            )
        } else {
            (
                SmrV { step: Step::Precommit, lock: spec_relock(s.lock, round, hash), ..s },
                seq![EventV::Precommit { height, round, hash }],
            )
        }
    } else {
        (s, seq![])
    }
}

/// A failed round: move to the next round, keep the lock, and brake once
/// the configured number of consecutive failures is reached.
pub open spec fn spec_fail_advance(s: SmrV) -> (SmrV, Seq<EventV>) {
    if s.round == u64::MAX {
        (s, seq![])
    } else {
        let round = (s.round + 1) as u64;
        let fails = if s.fails == u64::MAX {
            s.fails
        } else {
            (s.fails + 1) as u64
        };
        if s.brake_after > 0 && fails >= s.brake_after {
            (
                SmrV { round, step: Step::Brake, fails, ..s },
                seq![EventV::Brake { height: s.height, round }],
            )
        } else {
            (
                SmrV { round, step: Step::Propose, fails, ..s },
                seq![
                    EventV::NewRound { height: s.height, round, lock: s.lock },
                ],
            )
        }
    }
}

/// A precommit quorum certificate for the current round: a certificate for
/// a block commits it; a nil certificate fails the round.
pub open spec fn spec_precommit_qc(s: SmrV, height: u64, round: u64, hash: Seq<u8>) -> (
    SmrV,
    Seq<EventV>,
) {
    if height == s.height && round == s.round && !(s.step is Commit) {
        if is_nil(hash) {
            spec_fail_advance(s)
        } else {
            (
                SmrV { step: Step::Commit, ..s },
                seq![EventV::Commit { height, hash }],
            )
        }
    } else {
        (s, seq![])
    }
}

/// A choke quorum certificate for the current or a later round of this
/// height: the network abandoned that round, so move past it, keep the
/// lock, and resume the normal flow.
pub open spec fn spec_choke_qc(s: SmrV, height: u64, round: u64) -> (SmrV, Seq<EventV>) {
    if height == s.height && round >= s.round && !(s.step is Commit) && round < u64::MAX {
        let round2 = (round + 1) as u64;
        (
            SmrV { round: round2, step: Step::Propose, fails: 0, ..s },
            seq![
                EventV::NewRound { height: s.height, round: round2, lock: s.lock },
            ],
        )
    } else {
        (s, seq![])
    }
}

/// A timeout, only honoured for the exact `(height, round, step)` the
/// machine is in: a stale or foreign token does nothing.
pub open spec fn spec_timeout(s: SmrV, height: u64, round: u64, step: Step) -> (
    SmrV,
    Seq<EventV>,
) {
    if height == s.height && round == s.round && step == s.step {
        match s.step {
            Step::Propose => (
                SmrV { step: Step::Prevote, ..s },
                seq![EventV::Prevote { height, round, hash: Seq::empty() }],
            ),
            Step::Prevote => (
                SmrV { step: Step::Precommit, ..s },
                seq![EventV::Precommit { height, round, hash: Seq::empty() }],
            ),
            Step::Precommit => spec_fail_advance(s),
            Step::Brake => (s, seq![EventV::Brake { height, round: s.round }]),
            Step::Commit => (s, seq![]),
        }
    } else {
        (s, seq![])
    }
}

/// The machine's whole behaviour: next state and emitted events.
pub open spec fn spec_process(s: SmrV, t: TriggerV) -> (SmrV, Seq<EventV>) {
    match t {
        TriggerV::NewHeight { height } => spec_new_height(s, height),
        TriggerV::Proposal { height, round, hash, lock_round } => spec_proposal(
            s,
            height,
            round,
            hash,
            lock_round,
        ),
        TriggerV::PrevoteQc { height, round, hash } => spec_prevote_qc(s, height, round, hash),
        TriggerV::PrecommitQc { height, round, hash } => spec_precommit_qc(s, height, round, hash),
        TriggerV::ChokeQc { height, round } => spec_choke_qc(s, height, round),
        TriggerV::Timeout { height, round, step } => spec_timeout(s, height, round, step),
        TriggerV::PrevoteArrived => (s, seq![]),
        TriggerV::PrecommitArrived => (s, seq![]),
    }
}

/// The height of the commit an event carries, if it is a commit.
pub open spec fn commit_of(e: EventV) -> Option<u64> {
    match e {
        EventV::Commit { height, .. } => Some(height),
        _ => None,
    }
}

/// The hash of the prevote an event carries, if it is a prevote.
pub open spec fn prevote_hash_of(e: EventV) -> Option<Seq<u8>> {
    match e {
        EventV::Prevote { hash, .. } => Some(hash),
        _ => None,
    }
}

/// Whether processing `t` in state `s` emits a commit at height `h`.
pub open spec fn emits_commit(s: SmrV, t: TriggerV, h: u64) -> bool {
    exists|i: int|
        0 <= i < spec_process(s, t).1.len() && commit_of(
            #[trigger] spec_process(s, t).1[i],
        ) == Some(h)
}

/// The machine's invariant: a lock never comes from a later round than the
/// current one.
pub open spec fn smr_wf(s: SmrV) -> bool {
    s.lock matches Some(l) ==> l.round <= s.round
}

/// The machine never rewinds its height.
pub proof fn theorem_height_monotone(s: SmrV, t: TriggerV)
    ensures
        spec_process(s, t).0.height >= s.height,
{
}

/// The invariant holds after every step.
pub proof fn theorem_wf_preserved(s: SmrV, t: TriggerV)
    requires
        smr_wf(s),
    ensures
        smr_wf(spec_process(s, t).0),
{
}

/// A commit is emitted only for the current height, from a state not yet
/// committed, and leaves the machine in the commit step at that height.
pub proof fn lemma_commit_step(s: SmrV, t: TriggerV, h: u64)
    requires
        emits_commit(s, t, h),
    ensures
        h == s.height,
        !(s.step is Commit),
        spec_process(s, t).0.step is Commit,
        spec_process(s, t).0.height == s.height,
{
}

/// Once the machine has committed at height `h`, it is either still parked
/// in the commit step of `h` or already past `h`.
pub open spec fn committed_past(s: SmrV, h: u64) -> bool {
    (s.step is Commit && s.height == h) || s.height > h
}

/// One step keeps `committed_past`.
pub proof fn lemma_committed_past_step(s: SmrV, t: TriggerV, h: u64)
    requires
        committed_past(s, h),
    ensures
        committed_past(spec_process(s, t).0, h),
{
}

/// The state after feeding a whole sequence of triggers.
pub open spec fn run(s: SmrV, ts: Seq<TriggerV>) -> SmrV
    decreases ts.len(),
{
    if ts.len() == 0 {
        s
    } else {
        run(spec_process(s, ts[0]).0, ts.subrange(1, ts.len() as int))
    }
}

/// A whole sequence of triggers keeps `committed_past`.
pub proof fn lemma_committed_past_run(s: SmrV, ts: Seq<TriggerV>, h: u64)
    requires
        committed_past(s, h),
    ensures
        committed_past(run(s, ts), h),
    decreases ts.len(),
{
    if ts.len() > 0 {
        lemma_committed_past_step(s, ts[0], h);
        lemma_committed_past_run(spec_process(s, ts[0]).0, ts.subrange(1, ts.len() as int), h);
    }
}

/// Height commitments are strictly monotone: whatever happens between two
/// commits, the later one is at a strictly greater height. In particular
/// the machine never commits twice at one height.
pub proof fn theorem_commits_strictly_monotone(
    s0: SmrV,
    t0: TriggerV,
    ts: Seq<TriggerV>,
    t1: TriggerV,
    h0: u64,
    h1: u64,
)
    requires
        emits_commit(s0, t0, h0),
        emits_commit(run(spec_process(s0, t0).0, ts), t1, h1),
    ensures
        h1 > h0,
{
    lemma_commit_step(s0, t0, h0);
    let s1 = spec_process(s0, t0).0;
    lemma_committed_past_run(s1, ts, h0);
    let s2 = run(s1, ts);
    lemma_commit_step(s2, t1, h1);
}

/// While the lock stands, every prevote the machine casts is for the
/// locked block or nil.
pub proof fn theorem_locked_prevote(s: SmrV, t: TriggerV, l: LockV, i: int)
    requires
        s.lock == Some(l),
        spec_process(s, t).0.lock == Some(l),
        0 <= i < spec_process(s, t).1.len(),
        prevote_hash_of(spec_process(s, t).1[i]) is Some,
    ensures
        prevote_hash_of(spec_process(s, t).1[i]) == Some(l.hash) || prevote_hash_of(
            spec_process(s, t).1[i],
        ) == Some(Seq::<u8>::empty()),
{
}

/// The lock changes only as the protocol allows: a new height clears it; a
/// proposal carrying a proof of lock from a round after the lock's (and
/// not after the current one) drops it; a prevote quorum certificate of
/// the current round sets it, moves it to the same block, or moves it to a
/// different block only from a strictly later round.
pub proof fn theorem_lock_update_rule(s: SmrV, t: TriggerV)
    requires
        smr_wf(s),
    ensures
        ({
            let post = spec_process(s, t).0;
            post.lock != s.lock ==> {
                ||| (t matches TriggerV::NewHeight { height } && height > s.height && post.lock
                    is None)
                ||| (s.lock matches Some(l) && t matches TriggerV::Proposal { lock_round, .. }
                    && lock_round matches Some(plr) && l.round < plr && plr <= s.round && post.lock
                    is None)
                ||| (t matches TriggerV::PrevoteQc { height, round, hash } && height == s.height
                    && round == s.round && !is_nil(hash) && post.lock == Some(
                    LockV { round, hash },
                ) && (s.lock matches Some(l) ==> (l.hash == hash || l.round < round)))
            }
        }),
{
}

/// A timeout whose `(height, round, step)` is not exactly the machine's
/// current tuple is stale: it changes nothing and emits nothing.
pub proof fn theorem_stale_timeout_ignored(s: SmrV, height: u64, round: u64, step: Step)
    requires
        height != s.height || round != s.round || step != s.step,
    ensures
        spec_process(s, TriggerV::Timeout { height, round, step }) == (s, Seq::<EventV>::empty()),
{
    assert(spec_process(s, TriggerV::Timeout { height, round, step }).1 =~= Seq::<
        EventV,
    >::empty());
}

/// The round state machine.
#[derive(Clone, Debug)]
pub struct Smr {
    pub height: u64,
    pub round: u64,
    pub step: Step,
    pub lock: Option<Lock>,
    pub brake_after: u64,
    pub fails: u64,
}

impl View for Smr {
    type V = SmrV;

    open spec fn view(&self) -> SmrV {
        SmrV {
            height: self.height,
            round: self.round,
            step: self.step,
            lock: lock_view(self.lock),
            brake_after: self.brake_after,
            fails: self.fails,
        }
    }
}

impl Smr {
    /// A machine waiting for its first height. `brake_after` is the number
    /// of consecutive failed rounds before braking; zero disables braking.
    pub fn new(brake_after: u64) -> (r: Smr)
        ensures
            r@ == (SmrV {
                height: 0,
                round: 0,
                step: Step::Commit,
                lock: None,
                brake_after,
                fails: 0,
            }),
    {
        let r = Smr {
            height: 0,
            round: 0,
            step: Step::Commit,
            lock: None,
            brake_after,
            fails: 0,
        };
        r
    }

    /// A machine restored from a persisted step record.
    pub fn restore(
        height: u64,
        round: u64,
        step: Step,
        lock: Option<Lock>,
        brake_after: u64,
    ) -> (r: Smr)
        ensures
            r@ == (SmrV {
                height,
                round,
                step,
                lock: lock_view(lock),
                brake_after,
                fails: 0,
            }),
    {
        Smr { height, round, step, lock, brake_after, fails: 0 }
    }

    /// Feed one trigger; returns the events to act on, in order.
    pub fn process(&mut self, trigger: SmrTrigger) -> (events: Vec<SmrEvent>)
        ensures
            final(self)@ == spec_process(old(self)@, trigger@).0,
            events@.map_values(|e: SmrEvent| e@) == spec_process(old(self)@, trigger@).1,
    {
        let ghost pre = self@;
        let ghost tv = trigger@;
        let mut events: Vec<SmrEvent> = Vec::new();
        match trigger {
            SmrTrigger::NewHeight { height } => {
                if height > self.height {
                    self.height = height;
                    self.round = 0;
                    self.step = Step::Propose;
                    self.lock = None;
                    self.fails = 0;
                    events.push(SmrEvent::NewRoundInfo { height, round: 0, lock: None });
                }
            },
            SmrTrigger::Proposal { height, round, block_hash, lock_round } => {
                if height == self.height && round == self.round && matches!(self.step, Step::Propose)
                {
                    self.step = Step::Prevote;
                    let mut clear_lock = false;
                    let vote_hash: BlockHash = match &self.lock {
                        None => block_hash,
                        Some(l) => {
                            if crate::types::bytes_eq(&l.block_hash, &block_hash) {
                                block_hash
                            } else {
                                let unlock = match lock_round {
                                    Some(plr) => l.round < plr && plr <= round,
                                    None => false,
                                };
                                if unlock {
                                    clear_lock = true;
                                    block_hash
                                } else {
                                    crate::types::copy_bytes(&l.block_hash)
                                }
                            }
                        },
                    };
                    if clear_lock {
                        self.lock = None;
                    }
                    events.push(SmrEvent::PrevoteVote { height, round, block_hash: vote_hash });
                }
            },
            SmrTrigger::PrevoteQc { height, round, block_hash } => {
                if height == self.height && round == self.round && (matches!(
                    self.step,
                    Step::Propose,
                ) || matches!(self.step, Step::Prevote) || matches!(self.step, Step::Brake)) {
                    self.step = Step::Precommit;
                    if block_hash.len() > 0 {
                        let relock = match &self.lock {
                            None => true,
                            Some(l) => crate::types::bytes_eq(&l.block_hash, &block_hash)
                                || l.round < round,
                        };
                        if relock {
                            self.lock = Some(
                                Lock { round, block_hash: crate::types::copy_bytes(&block_hash) },
                            );
                        }
                    }
                    events.push(SmrEvent::PrecommitVote { height, round, block_hash });
                }
            },
            SmrTrigger::PrecommitQc { height, round, block_hash } => {
                if height == self.height && round == self.round && !matches!(
                    self.step,
                    Step::Commit,
                ) {
                    if block_hash.len() == 0 {
                        self.fail_advance(&mut events);
                    } else {
                        self.step = Step::Commit;
                        events.push(SmrEvent::Commit { height, block_hash });
                    }
                }
            },
            SmrTrigger::ChokeQc { height, round } => {
                if height == self.height && round >= self.round && !matches!(self.step, Step::Commit)
                    && round < u64::MAX {
                    let round2 = round + 1;
                    self.round = round2;
                    self.step = Step::Propose;
                    self.fails = 0;
                    let lock2 = self.copy_lock();
                    events.push(
                        SmrEvent::NewRoundInfo { height: self.height, round: round2, lock: lock2 },
                    );
                }
            },
            SmrTrigger::Timeout { height, round, step } => {
                if height == self.height && round == self.round && step == self.step {
                    match step {
                        Step::Propose => {
                            self.step = Step::Prevote;
                            events.push(
                                SmrEvent::PrevoteVote { height, round, block_hash: Vec::new() },
                            );
                        },
                        Step::Prevote => {
                            self.step = Step::Precommit;
                            events.push(
                                SmrEvent::PrecommitVote { height, round, block_hash: Vec::new() },
                            );
                        },
                        Step::Precommit => {
                            self.fail_advance(&mut events);
                        },
                        Step::Brake => {
                            events.push(SmrEvent::Brake { height, round });
                        },
                        Step::Commit => {},
                    }
                }
            },
            SmrTrigger::PrevoteArrived => {},
            SmrTrigger::PrecommitArrived => {},
        }
        proof {
            assert(events@.map_values(|e: SmrEvent| e@) =~= spec_process(pre, tv).1);
        }
        events
    }

    /// A copy of the current lock.
    fn copy_lock(&self) -> (r: Option<Lock>)
        ensures
            lock_view(r) == lock_view(self.lock),
    {
        match &self.lock {
            None => None,
            Some(l) => Some(Lock { round: l.round, block_hash: crate::types::copy_bytes(&l.block_hash) }),
        }
    }

    /// The failed-round advance shared by nil precommit certificates and
    /// precommit timeouts.
    fn fail_advance(&mut self, events: &mut Vec<SmrEvent>)
        ensures
            final(self)@ == spec_fail_advance(old(self)@).0,
            final(events)@.map_values(|e: SmrEvent| e@) == old(events)@.map_values(
                |e: SmrEvent| e@,
            ) + spec_fail_advance(old(self)@).1,
    {
        let ghost pre = self@;
        let ghost evs0 = events@.map_values(|e: SmrEvent| e@);
        if self.round == u64::MAX {
            proof {
                assert(evs0 + spec_fail_advance(pre).1 =~= evs0);
            }
            return ;
        }
        self.round = self.round + 1;
        if self.fails < u64::MAX {
            self.fails = self.fails + 1;
        }
        if self.brake_after > 0 && self.fails >= self.brake_after {
            self.step = Step::Brake;
            events.push(SmrEvent::Brake { height: self.height, round: self.round });
        } else {
            self.step = Step::Propose;
            let lock2 = self.copy_lock();
            events.push(
                SmrEvent::NewRoundInfo { height: self.height, round: self.round, lock: lock2 },
            );
        }
        proof {
            assert(events@.map_values(|e: SmrEvent| e@) =~= evs0 + spec_fail_advance(pre).1);
        }
    }
}

} // verus!
