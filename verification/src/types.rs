//! The data model of the engine.
//!
//! Addresses and digests are opaque bytes; the block payload is an opaque
//! type parameter that the engine never inspects.

use vstd::prelude::*;

verus! {

/// A node's identity: opaque bytes.
pub type Address = Vec<u8>;

/// A cryptographic digest: opaque bytes.
///
/// The empty digest is the nil marker: a vote for "no block".
pub type BlockHash = Vec<u8>;

/// A detached signature: opaque bytes produced by the crypto collaborator.
pub type Signature = Vec<u8>;

/// Whether a digest is the nil marker.
pub open spec fn is_nil(h: Seq<u8>) -> bool {
    h.len() == 0
}

/// One step of a round.
#[derive(Clone, Copy, Debug, PartialEq, Eq, Structural)]
pub enum Step {
    Propose,
    Prevote,
    Precommit,
    Brake,
    Commit,
}

/// The position of a step inside a round, for cancellation order.
pub open spec fn step_order(s: Step) -> int {
    match s {
        Step::Propose => 0,
        Step::Prevote => 1,
        Step::Precommit => 2,
        Step::Brake => 3,
        Step::Commit => 4,
    }
}

/// The two kinds of votes a quorum certificate can aggregate.
#[derive(Clone, Copy, Debug, PartialEq, Eq, Structural)]
pub enum VoteType {
    Prevote,
    Precommit,
}

/// One authority: its address and its two weights.
///
/// Weights are small numbers; 32 bits leave every sum over a roster
/// representable without overflow.
#[derive(Clone, Debug)]
pub struct Node {
    pub address: Address,
    pub propose_weight: u32,
    pub vote_weight: u32,
}

/// The hot-swappable step-delay ratios, each over a denominator of ten.
#[derive(Clone, Copy, Debug, PartialEq, Eq, Structural)]
pub struct DurationConfig {
    pub propose_ratio: u64,
    pub prevote_ratio: u64,
    pub precommit_ratio: u64,
    pub brake_ratio: u64,
}

impl DurationConfig {
    /// Build a ratio table.
    pub fn new(
        propose_ratio: u64,
        prevote_ratio: u64,
        precommit_ratio: u64,
        brake_ratio: u64,
    ) -> (r: DurationConfig)
        ensures
            r == (DurationConfig {
                propose_ratio,
                prevote_ratio,
                precommit_ratio,
                brake_ratio,
            }),
    {
        DurationConfig { propose_ratio, prevote_ratio, precommit_ratio, brake_ratio }
    }

    /// The propose delay as a fraction of the interval.
    pub fn get_propose_config(&self) -> (r: (u64, u64))
        ensures
            r == (self.propose_ratio, 10u64),
    {
        (self.propose_ratio, 10)
    }

    /// The prevote delay as a fraction of the interval.
    pub fn get_prevote_config(&self) -> (r: (u64, u64))
        ensures
            r == (self.prevote_ratio, 10u64),
    {
        (self.prevote_ratio, 10)
    }

    /// The precommit delay as a fraction of the interval.
    pub fn get_precommit_config(&self) -> (r: (u64, u64))
        ensures
            r == (self.precommit_ratio, 10u64),
    {
        (self.precommit_ratio, 10)
    }

    /// The brake delay as a fraction of the interval.
    pub fn get_brake_config(&self) -> (r: (u64, u64))
        ensures
            r == (self.brake_ratio, 10u64),
    {
        (self.brake_ratio, 10)
    }
}

/// A vote payload: the canonical content a vote signature covers.
#[derive(Clone, Debug)]
pub struct Vote {
    pub height: u64,
    pub round: u64,
    pub vote_type: VoteType,
    pub block_hash: BlockHash,
}

/// A vote with its voter and detached signature.
#[derive(Clone, Debug)]
pub struct SignedVote {
    pub signature: Signature,
    pub vote: Vote,
    pub voter: Address,
}

/// An aggregate signature with the bitmap naming whose votes it covers.
#[derive(Clone, Debug)]
pub struct AggregatedSignature {
    pub signature: Signature,
    pub address_bitmap: Vec<u8>,
}

/// A quorum certificate: an aggregated vote for one `(height, round,
/// vote_type, block_hash)`.
#[derive(Clone, Debug)]
pub struct AggregatedVote {
    pub signature: AggregatedSignature,
    pub vote_type: VoteType,
    pub height: u64,
    pub round: u64,
    pub block_hash: BlockHash,
}

impl AggregatedVote {
    /// The canonical single-vote payload the aggregate signature covers.
    pub fn to_vote(&self) -> (r: Vote)
        ensures
            r.height == self.height,
            r.round == self.round,
            r.vote_type == self.vote_type,
            r.block_hash@ == self.block_hash@,
    {
        Vote {
            height: self.height,
            round: self.round,
            vote_type: self.vote_type,
            block_hash: self.block_hash.clone(),
        }
    }
}

/// A proof of lock: the prevote quorum certificate a proposer carries
/// forward to justify re-proposing a block.
#[derive(Clone, Debug)]
pub struct PoLC {
    pub lock_round: u64,
    pub lock_votes: AggregatedVote,
}

/// A proposal for one `(height, round)`.
#[derive(Clone, Debug)]
pub struct Proposal<T> {
    pub height: u64,
    pub round: u64,
    pub content: T,
    pub block_hash: BlockHash,
    pub lock: Option<PoLC>,
    pub proposer: Address,
}

/// A proposal with its proposer's detached signature.
#[derive(Clone, Debug)]
pub struct SignedProposal<T> {
    pub signature: Signature,
    pub proposal: Proposal<T>,
}

/// A signed intent to abandon the current round.
#[derive(Clone, Debug)]
pub struct Choke {
    pub height: u64,
    pub round: u64,
}

/// A choke with its sender and detached signature.
#[derive(Clone, Debug)]
pub struct SignedChoke {
    pub signature: Signature,
    pub choke: Choke,
    pub address: Address,
}

/// The host-produced trigger for the next height.
#[derive(Clone, Debug)]
pub struct Status {
    pub height: u64,
    pub interval: Option<u64>,
    pub timer_config: Option<DurationConfig>,
    pub authority_list: Vec<Node>,
}

/// Every message the engine can receive from the outside.
#[derive(Clone, Debug)]
pub enum MlmMsg<T> {
    SignedProposal(SignedProposal<T>),
    SignedVote(SignedVote),
    AggregatedVote(AggregatedVote),
    SignedChoke(SignedChoke),
    RichStatus(Status),
    Stop,
}

impl SignedVote {
    /// A field-for-field copy.
    pub fn clone_record(&self) -> (r: SignedVote)
        ensures
            r.vote.height == self.vote.height,
            r.vote.round == self.vote.round,
            r.vote.vote_type == self.vote.vote_type,
            r.vote.block_hash@ == self.vote.block_hash@,
            r.voter@ == self.voter@,
            r.signature@ == self.signature@,
    {
        SignedVote {
            signature: copy_bytes(&self.signature),
            vote: Vote {
                height: self.vote.height,
                round: self.vote.round,
                vote_type: self.vote.vote_type,
                block_hash: copy_bytes(&self.vote.block_hash),
            },
            voter: copy_bytes(&self.voter),
        }
    }
}

impl SignedChoke {
    /// A field-for-field copy.
    pub fn clone_record(&self) -> (r: SignedChoke)
        ensures
            r.choke.height == self.choke.height,
            r.choke.round == self.choke.round,
            r.address@ == self.address@,
            r.signature@ == self.signature@,
    {
        SignedChoke {
            signature: copy_bytes(&self.signature),
            choke: Choke { height: self.choke.height, round: self.choke.round },
            address: copy_bytes(&self.address),
        }
    }
}

/// A fresh copy of an opaque byte string.
pub fn copy_bytes(v: &Vec<u8>) -> (r: Vec<u8>)
    ensures
        r@ == v@,
{
    let mut r: Vec<u8> = Vec::new();
    let mut i: usize = 0;
    while i < v.len()
        invariant
            i <= v.len(),
            r@ =~= v@.take(i as int),
        decreases v.len() - i,
    {
        r.push(v[i]);
        i += 1;
    }
    proof {
        assert(r@ =~= v@);
    }
    r
}

/// Byte-for-byte equality of two opaque byte strings.
pub fn bytes_eq(a: &Vec<u8>, b: &Vec<u8>) -> (r: bool)
    ensures
        r <==> a@ == b@,
{
    if a.len() != b.len() {
        proof {
            assert(a@.len() != b@.len());
        }
        return false;
    }
    let mut i: usize = 0;
    while i < a.len()
        invariant
            i <= a.len(),
            a.len() == b.len(),
            forall|j: int| 0 <= j < i ==> a@[j] == b@[j],
        decreases a.len() - i,
    {
        if a[i] != b[i] {
            return false;
        }
        i += 1;
    }
    proof {
        assert(a@ =~= b@);
    }
    true
}

} // verus!
