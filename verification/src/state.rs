//! The driver's height memory and its pure decisions.
//!
//! The driver owns the current height record: the roster, the vote
//! collector, the proposals seen, and the lock. The asynchronous shell
//! around the engine performs the host calls; everything the driver
//! decides — when a status opens a new height, which proposal a round
//! holds, when enough higher observations justify leaping ahead — is here.

use vstd::prelude::*;

use crate::authority::AuthorityManage;
use crate::collector::{SignedChokeV, SignedVoteV, VoteCollector};
use crate::types::{PoLC, SignedProposal, Status, Step};

verus! {

/// The mathematical value of a stored proposal: its slot.
pub ghost struct ProposalSlotV {
    pub height: u64,
    pub round: u64,
}

/// The driver's memory for one run.
pub struct State<T> {
    pub height: u64,
    pub round: u64,
    pub step: Step,
    pub authority: AuthorityManage,
    pub collector: VoteCollector,
    pub proposals: Vec<SignedProposal<T>>,
    pub lock: Option<PoLC>,
}

/// The slots of a proposal list.
pub open spec fn proposal_slots<T>(ps: Seq<SignedProposal<T>>) -> Seq<ProposalSlotV> {
    ps.map_values(
        |p: SignedProposal<T>| ProposalSlotV { height: p.proposal.height, round: p.proposal.round },
    )
}

/// At most one proposal per `(height, round)`.
pub open spec fn proposals_distinct(slots: Seq<ProposalSlotV>) -> bool {
    forall|i: int, j: int|
        0 <= i < j < slots.len() ==> !((#[trigger] slots[i]).height == (#[trigger] slots[j]).height
            && slots[i].round == slots[j].round)
}

impl<T> State<T> {
    /// The driver's invariant: distinct tallies and one proposal per
    /// round.
    pub open spec fn wf(&self) -> bool {
        self.collector.wf() && proposals_distinct(proposal_slots(self.proposals@))
    }

    /// A driver waiting at a starting height, before its first round.
    pub fn new(init_height: u64, authority_list: Vec<crate::types::Node>) -> (r: State<T>)
        ensures
            r.height == init_height,
            r.round == 0,
            r.step == Step::Propose,
            r.lock is None,
            r.authority.current == authority_list,
            r.collector.votes_view().len() == 0,
            r.proposals@.len() == 0,
            r.wf(),
    {
        State {
            height: init_height,
            round: 0,
            step: Step::Propose,
            authority: AuthorityManage::new(authority_list),
            collector: VoteCollector::new(),
            proposals: Vec::new(),
            lock: None,
        }
    }

    /// A driver restored from a persisted step record: the height, round,
    /// step and lock come from the log; the tallies start empty and fill
    /// again from the peers.
    pub fn recover(
        height: u64,
        round: u64,
        step: Step,
        authority_list: Vec<crate::types::Node>,
        lock: Option<PoLC>,
    ) -> (r: State<T>)
        ensures
            r.height == height,
            r.round == round,
            r.step == step,
            r.lock == lock,
            r.authority.current == authority_list,
            r.collector.votes_view().len() == 0,
            r.proposals@.len() == 0,
            r.wf(),
    {
        State {
            height,
            round,
            step,
            authority: AuthorityManage::new(authority_list),
            collector: VoteCollector::new(),
            proposals: Vec::new(),
            lock,
        }
    }

    /// A host status opens the next height: everything below it is
    /// flushed, the roster rotates, the lock falls. A status that does not
    /// advance the height is refused, so the height never rewinds.
    pub fn handle_status(&mut self, status: Status) -> (accepted: bool)
        requires
            old(self).wf(),
        ensures
            final(self).wf(),
            accepted <==> status.height > old(self).height,
            !accepted ==> *final(self) == *old(self),
            accepted ==> {
                &&& final(self).height == status.height
                &&& final(self).round == 0
                &&& final(self).step == Step::Propose
                &&& final(self).lock is None
                &&& final(self).authority.current == status.authority_list
                &&& final(self).authority.last == old(self).authority.current
                &&& final(self).proposals@.len() == 0
                &&& final(self).collector.votes_view() == old(self).collector.votes_view().filter(
                    |v: SignedVoteV| v.height >= status.height,
                )
                &&& final(self).collector.chokes_view() == old(self).collector.chokes_view().filter(|c: SignedChokeV| c.height >= status.height)
            },
    {
        if status.height <= self.height {
            return false;
        }
        self.height = status.height;
        self.round = 0;
        self.step = Step::Propose;
        self.lock = None;
        self.collector.flush(status.height);
        self.authority.update(status.authority_list);
        self.proposals = Vec::new();
        true
    }

    /// Remember a proposal. A second proposal for the same
    /// `(height, round)` is refused: the first one seen rules the round.
    pub fn insert_proposal(&mut self, sp: SignedProposal<T>) -> (fresh: bool)
        requires
            old(self).wf(),
        ensures
            final(self).wf(),
            fresh <==> !exists|i: int|
                0 <= i < old(self).proposals@.len() && (#[trigger] proposal_slots(
                    old(self).proposals@,
                )[i]).height == sp.proposal.height && proposal_slots(old(self).proposals@)[i].round
                    == sp.proposal.round,
            fresh ==> final(self).proposals@ == old(self).proposals@.push(sp),
            !fresh ==> final(self).proposals@ == old(self).proposals@,
            final(self).height == old(self).height && final(self).round == old(self).round && final(self).step == old(self).step,
            final(self).collector == old(self).collector,
    {
        let ghost slots = proposal_slots(self.proposals@);
        let mut i: usize = 0;
        while i < self.proposals.len()
            invariant
                i <= self.proposals@.len(),
                *self == *old(self),
                old(self).wf(),
                slots == proposal_slots(self.proposals@),
                slots.len() == self.proposals@.len(),
                forall|j: int|
                    0 <= j < i ==> !((#[trigger] slots[j]).height == sp.proposal.height
                        && slots[j].round == sp.proposal.round),
            decreases self.proposals.len() - i,
        {
            let p = &self.proposals[i];
            if p.proposal.height == sp.proposal.height && p.proposal.round == sp.proposal.round {
                proof {
                    assert(slots[i as int].height == sp.proposal.height && slots[i as int].round
                        == sp.proposal.round);
                }
                return false;
            }
            i += 1;
        }
        let ghost spv = ProposalSlotV { height: sp.proposal.height, round: sp.proposal.round };
        self.proposals.push(sp);
        proof {
            let post = proposal_slots(self.proposals@);
            assert(post =~= slots.push(spv));
            assert forall|a: int, b: int|
                0 <= a < b < post.len() implies !((#[trigger] post[a]).height
                == (#[trigger] post[b]).height && post[a].round == post[b].round) by {
                if b < slots.len() {
                    assert(slots[a] == post[a] && slots[b] == post[b]);
                } else {
                    assert(post[b] == spv);
                }
            }
        }
        true
    }

    /// Whether a round has a proposal on record, by its position.
    pub fn find_proposal(&self, height: u64, round: u64) -> (r: Option<usize>)
        ensures
            r matches Some(i) ==> i < self.proposals@.len() && self.proposals@[i as int
            ].proposal.height == height && self.proposals@[i as int].proposal.round == round,
            r is None ==> forall|i: int|
                0 <= i < self.proposals@.len() ==> !((#[trigger] proposal_slots(
                    self.proposals@,
                )[i]).height == height && proposal_slots(self.proposals@)[i].round == round),
    {
        let ghost slots = proposal_slots(self.proposals@);
        let mut i: usize = 0;
        while i < self.proposals.len()
            invariant
                i <= self.proposals@.len(),
                slots == proposal_slots(self.proposals@),
                slots.len() == self.proposals@.len(),
                forall|j: int|
                    0 <= j < i ==> !((#[trigger] slots[j]).height == height && slots[j].round
                        == round),
            decreases self.proposals.len() - i,
        {
            let p = &self.proposals[i];
            if p.proposal.height == height && p.proposal.round == round {
                return Some(i);
            }
            i += 1;
        }
        None
    }
}

/// Whether enough observations came from a strictly higher height or
/// round to leap ahead. With at most `f = (n - 1) / 3` faulty authorities
/// tolerated, `f + 1` distinct observers — that is `3 * count >= n` — mean
/// at least one honest node has moved on.
pub fn leap_ahead_ready(count: u64, n: u64) -> (r: bool)
    ensures
        r <==> (n > 0 && 3 * count >= n),
{
    n > 0 && (count as u128) * 3 >= n as u128
}

} // verus!
