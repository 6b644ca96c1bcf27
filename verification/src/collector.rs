//! The vote collector: per `(height, round, vote type)` tallies of signed
//! votes, the choke tally, and quorum detection.

use vstd::prelude::*;
use vstd::seq_lib::*;

use crate::authority::{total_weight, vote_weight_of, AuthorityManage};
use crate::types::{Address, BlockHash, SignedChoke, SignedVote, VoteType};

verus! {

/// The mathematical value of a signed vote.
pub ghost struct SignedVoteV {
    pub height: u64,
    pub round: u64,
    pub vote_type: VoteType,
    pub hash: Seq<u8>,
    pub voter: Seq<u8>,
    pub sig: Seq<u8>,
}

impl View for SignedVote {
    type V = SignedVoteV;

    open spec fn view(&self) -> SignedVoteV {
        SignedVoteV {
            height: self.vote.height,
            round: self.vote.round,
            vote_type: self.vote.vote_type,
            hash: self.vote.block_hash@,
            voter: self.voter@,
            sig: self.signature@,
        }
    }
}

/// The mathematical value of a signed choke.
pub ghost struct SignedChokeV {
    pub height: u64,
    pub round: u64,
    pub address: Seq<u8>,
    pub sig: Seq<u8>,
}

impl View for SignedChoke {
    type V = SignedChokeV;

    open spec fn view(&self) -> SignedChokeV {
        SignedChokeV {
            height: self.choke.height,
            round: self.choke.round,
            address: self.address@,
            sig: self.signature@,
        }
    }
}

/// Whether a vote belongs to the tally of `(height, round, vote_type)`.
pub open spec fn keyed(v: SignedVoteV, height: u64, round: u64, vote_type: VoteType) -> bool {
    v.height == height && v.round == round && v.vote_type == vote_type
}

/// Whether two vote records would count one voter twice in one tally.
pub open spec fn clashes(a: SignedVoteV, b: SignedVoteV) -> bool {
    a.height == b.height && a.round == b.round && a.vote_type == b.vote_type && a.voter == b.voter
}

/// No voter appears twice in any one tally.
pub open spec fn votes_distinct(votes: Seq<SignedVoteV>) -> bool {
    forall|i: int, j: int|
        0 <= i < j < votes.len() ==> !clashes(#[trigger] votes[i], #[trigger] votes[j])
}

/// Whether two choke records would count one sender twice in one round.
pub open spec fn choke_clashes(a: SignedChokeV, b: SignedChokeV) -> bool {
    a.height == b.height && a.round == b.round && a.address == b.address
}

/// No sender appears twice in any one round's choke tally.
pub open spec fn chokes_distinct(chokes: Seq<SignedChokeV>) -> bool {
    forall|i: int, j: int|
        0 <= i < j < chokes.len() ==> !choke_clashes(#[trigger] chokes[i], #[trigger] chokes[j])
}

/// The mathematical values of a list of digests.
pub open spec fn hashes_view(r: Seq<BlockHash>) -> Seq<Seq<u8>> {
    r.map_values(|b: BlockHash| b@)
}

/// Whether one of the first `k` votes of the tally of
/// `(height, round, vote_type)` names the block `s`.
pub open spec fn voted_hash_to(
    votes: Seq<SignedVoteV>,
    height: u64,
    round: u64,
    vote_type: VoteType,
    s: Seq<u8>,
    k: int,
) -> bool {
    exists|j: int|
        0 <= j < k && keyed(#[trigger] votes[j], height, round, vote_type) && votes[j].hash == s
}

/// Whether some vote of the tally already names this voter.
pub open spec fn has_vote(
    votes: Seq<SignedVoteV>,
    height: u64,
    round: u64,
    vote_type: VoteType,
    voter: Seq<u8>,
) -> bool {
    exists|i: int|
        0 <= i < votes.len() && keyed(#[trigger] votes[i], height, round, vote_type)
            && votes[i].voter == voter
}

/// Whether some choke of the `(height, round)` tally already names this
/// sender.
pub open spec fn has_choke(
    chokes: Seq<SignedChokeV>,
    height: u64,
    round: u64,
    address: Seq<u8>,
) -> bool {
    exists|i: int|
        0 <= i < chokes.len() && (#[trigger] chokes[i]).height == height && chokes[i].round
            == round && chokes[i].address == address
}

/// The vote weight of the chokes of `(height, round)` among the first `k`
/// records, each sender counted at its roster weight.
pub open spec fn choke_weight_to(
    roster: Seq<crate::authority::NodeV>,
    chokes: Seq<SignedChokeV>,
    height: u64,
    round: u64,
    k: int,
) -> int
    decreases k,
{
    if k <= 0 {
        0
    } else {
        choke_weight_to(roster, chokes, height, round, k - 1) + if chokes[k - 1].height == height
            && chokes[k - 1].round == round {
            vote_weight_of(roster, chokes[k - 1].address) as int
        } else {
            0
        }
    }
}

/// The vote weight of a round's whole choke tally.
pub open spec fn choke_weight(
    roster: Seq<crate::authority::NodeV>,
    chokes: Seq<SignedChokeV>,
    height: u64,
    round: u64,
) -> int {
    choke_weight_to(roster, chokes, height, round, chokes.len() as int)
}

/// The senders that choked `(height, round)` among the first `k` records,
/// in arrival order.
pub open spec fn choke_senders_to(
    chokes: Seq<SignedChokeV>,
    height: u64,
    round: u64,
    k: int,
) -> Seq<Seq<u8>>
    decreases k,
{
    if k <= 0 {
        Seq::empty()
    } else {
        choke_senders_to(chokes, height, round, k - 1) + if chokes[k - 1].height == height
            && chokes[k - 1].round == round {
            seq![chokes[k - 1].address]
        } else {
            Seq::<Seq<u8>>::empty()
        }
    }
}

/// The senders that choked a round, in arrival order.
pub open spec fn choke_senders(chokes: Seq<SignedChokeV>, height: u64, round: u64) -> Seq<
    Seq<u8>,
> {
    choke_senders_to(chokes, height, round, chokes.len() as int)
}

/// The vote weight of the bucket `(height, round, vote_type, hash)` among
/// the first `k` votes, each voter counted at its roster weight.
pub open spec fn bucket_weight_to(
    roster: Seq<crate::authority::NodeV>,
    votes: Seq<SignedVoteV>,
    height: u64,
    round: u64,
    vote_type: VoteType,
    hash: Seq<u8>,
    k: int,
) -> int
    decreases k,
{
    if k <= 0 {
        0
    } else {
        bucket_weight_to(roster, votes, height, round, vote_type, hash, k - 1) + if keyed(
            votes[k - 1],
            height,
            round,
            vote_type,
        ) && votes[k - 1].hash == hash {
            vote_weight_of(roster, votes[k - 1].voter) as int
        } else {
            0
        }
    }
}

/// The vote weight of a whole bucket.
pub open spec fn bucket_weight(
    roster: Seq<crate::authority::NodeV>,
    votes: Seq<SignedVoteV>,
    height: u64,
    round: u64,
    vote_type: VoteType,
    hash: Seq<u8>,
) -> int {
    bucket_weight_to(roster, votes, height, round, vote_type, hash, votes.len() as int)
}

/// Whether a bucket holds a strict super-majority of the roster's weight.
pub open spec fn crossing(
    roster: Seq<crate::authority::NodeV>,
    votes: Seq<SignedVoteV>,
    height: u64,
    round: u64,
    vote_type: VoteType,
    hash: Seq<u8>,
) -> bool {
    3 * bucket_weight(roster, votes, height, round, vote_type, hash) > 2 * total_weight(roster)
}

/// The voters of a bucket, in arrival order.
pub open spec fn bucket_voters_to(
    votes: Seq<SignedVoteV>,
    height: u64,
    round: u64,
    vote_type: VoteType,
    hash: Seq<u8>,
    k: int,
) -> Seq<Seq<u8>>
    decreases k,
{
    if k <= 0 {
        Seq::empty()
    } else {
        bucket_voters_to(votes, height, round, vote_type, hash, k - 1) + if keyed(
            votes[k - 1],
            height,
            round,
            vote_type,
        ) && votes[k - 1].hash == hash {
            seq![votes[k - 1].voter]
        } else {
            Seq::<Seq<u8>>::empty()
        }
    }
}

/// The voters of a whole bucket, in arrival order.
pub open spec fn bucket_voters(
    votes: Seq<SignedVoteV>,
    height: u64,
    round: u64,
    vote_type: VoteType,
    hash: Seq<u8>,
) -> Seq<Seq<u8>> {
    bucket_voters_to(votes, height, round, vote_type, hash, votes.len() as int)
}

/// Per-height memory of votes and chokes.
pub struct VoteCollector {
    pub votes: Vec<SignedVote>,
    pub chokes: Vec<SignedChoke>,
}

impl VoteCollector {
    /// The mathematical value of the vote tally.
    pub open spec fn votes_view(&self) -> Seq<SignedVoteV> {
        self.votes@.map_values(|v: SignedVote| v@)
    }

    /// The mathematical value of the choke tally.
    pub open spec fn chokes_view(&self) -> Seq<SignedChokeV> {
        self.chokes@.map_values(|c: SignedChoke| c@)
    }

    /// One prevote and one precommit per voter per `(height, round)`: no
    /// two records share height, round, vote type and voter; no two chokes
    /// share height, round and sender.
    pub open spec fn wf(&self) -> bool {
        votes_distinct(self.votes_view()) && chokes_distinct(self.chokes_view())
    }

    /// An empty collector.
    pub fn new() -> (r: VoteCollector)
        ensures
            r.votes_view().len() == 0,
            r.chokes_view().len() == 0,
            r.wf(),
    {
        VoteCollector { votes: Vec::new(), chokes: Vec::new() }
    }

    /// Record a signed vote. A second vote by the same voter for the same
    /// `(height, round, vote type)` is ignored, whatever block it names.
    /// Returns whether the vote was fresh.
    pub fn insert_vote(&mut self, sv: SignedVote) -> (fresh: bool)
        requires
            old(self).wf(),
        ensures
            final(self).wf(),
            fresh <==> !has_vote(
                old(self).votes_view(),
                sv.vote.height,
                sv.vote.round,
                sv.vote.vote_type,
                sv.voter@,
            ),
            fresh ==> final(self).votes_view() == old(self).votes_view().push(sv@),
            !fresh ==> *final(self) == *old(self),
            final(self).chokes_view() == old(self).chokes_view(),
    {
        let ghost pre = self.votes_view();
        let mut i: usize = 0;
        while i < self.votes.len()
            invariant
                i <= self.votes@.len(),
                *self == *old(self),
                old(self).wf(),
                pre == self.votes_view(),
                pre.len() == self.votes@.len(),
                forall|j: int| 0 <= j < i ==> !clashes(#[trigger] pre[j], sv@),
            decreases self.votes.len() - i,
        {
            let v = &self.votes[i];
            if v.vote.height == sv.vote.height && v.vote.round == sv.vote.round
                && v.vote.vote_type == sv.vote.vote_type && crate::types::bytes_eq(
                &v.voter,
                &sv.voter,
            ) {
                proof {
                    assert(keyed(pre[i as int], sv.vote.height, sv.vote.round, sv.vote.vote_type)
                        && pre[i as int].voter == sv.voter@);
                }
                return false;
            }
            i += 1;
        }
        let ghost svv = sv@;
        self.votes.push(sv);
        proof {
            let post = self.votes_view();
            assert(post =~= pre.push(svv));
            assert forall|a: int, b: int| 0 <= a < b < post.len() implies !clashes(
                post[a],
                post[b],
            ) by {
                if b < pre.len() {
                    assert(!clashes(pre[a], pre[b]));
                } else {
                    assert(post[b] == svv);
                    assert(!clashes(pre[a], svv));
                }
            }
            assert forall|j: int|
                0 <= j < pre.len() && keyed(
                    #[trigger] pre[j],
                    svv.height,
                    svv.round,
                    svv.vote_type,
                ) implies pre[j].voter != svv.voter by {
                assert(!clashes(pre[j], svv));
            }
        }
        true
    }

    /// Record a signed choke. A second choke by the same node for the same
    /// `(height, round)` is ignored. Returns whether the choke was fresh.
    pub fn insert_choke(&mut self, sc: SignedChoke) -> (fresh: bool)
        requires
            old(self).wf(),
        ensures
            final(self).wf(),
            fresh <==> !has_choke(
                old(self).chokes_view(),
                sc.choke.height,
                sc.choke.round,
                sc.address@,
            ),
            fresh ==> final(self).chokes_view() == old(self).chokes_view().push(sc@),
            !fresh ==> *final(self) == *old(self),
            final(self).votes_view() == old(self).votes_view(),
    {
        let ghost pre = self.chokes_view();
        let mut i: usize = 0;
        while i < self.chokes.len()
            invariant
                i <= self.chokes@.len(),
                *self == *old(self),
                old(self).wf(),
                pre == self.chokes_view(),
                pre.len() == self.chokes@.len(),
                forall|j: int| 0 <= j < i ==> !choke_clashes(#[trigger] pre[j], sc@),
            decreases self.chokes.len() - i,
        {
            let c = &self.chokes[i];
            if c.choke.height == sc.choke.height && c.choke.round == sc.choke.round
                && crate::types::bytes_eq(&c.address, &sc.address) {
                proof {
                    assert(pre[i as int].height == sc.choke.height && pre[i as int].round
                        == sc.choke.round && pre[i as int].address == sc.address@);
                }
                return false;
            }
            i += 1;
        }
        let ghost scv = sc@;
        self.chokes.push(sc);
        proof {
            let post = self.chokes_view();
            assert(post =~= pre.push(scv));
            assert forall|a: int, b: int| 0 <= a < b < post.len() implies !choke_clashes(
                post[a],
                post[b],
            ) by {
                if b < pre.len() {
                    assert(!choke_clashes(pre[a], pre[b]));
                } else {
                    assert(post[b] == scv);
                    assert(!choke_clashes(pre[a], scv));
                }
            }
            assert forall|j: int|
                0 <= j < pre.len() && (#[trigger] pre[j]).height == scv.height && pre[j].round
                    == scv.round implies pre[j].address != scv.address by {
                assert(!choke_clashes(pre[j], scv));
            }
        }
        true
    }

    /// The weight of a bucket, each voter counted at its current-roster
    /// weight.
    fn weigh_bucket(
        &self,
        auth: &AuthorityManage,
        height: u64,
        round: u64,
        vote_type: VoteType,
        hash: &BlockHash,
    ) -> (r: u128)
        ensures
            r == bucket_weight(auth.roster(), self.votes_view(), height, round, vote_type, hash@),
            r <= self.votes@.len() * 0x1_0000_0000,
    {
        let ghost roster = auth.roster();
        let ghost votes = self.votes_view();
        let mut acc: u128 = 0;
        let mut j: usize = 0;
        while j < self.votes.len()
            invariant
                j <= self.votes@.len(),
                votes == self.votes_view(),
                roster == auth.roster(),
                votes.len() == self.votes@.len(),
                acc == bucket_weight_to(roster, votes, height, round, vote_type, hash@, j as int),
                acc <= j * 0x1_0000_0000,
            decreases self.votes.len() - j,
        {
            let v = &self.votes[j];
            proof {
                assert((j + 1) * 0x1_0000_0000 == j * 0x1_0000_0000 + 0x1_0000_0000)
                    by (nonlinear_arith);
            }
            if v.vote.height == height && v.vote.round == round && v.vote.vote_type == vote_type
                && crate::types::bytes_eq(&v.vote.block_hash, hash) {
                let w = auth.get_vote_weight(&v.voter);
                proof {
                    assert(w == vote_weight_of(roster, votes[j as int].voter));
                    assert(w <= 0xffff_ffff);
                }
                acc = acc + w as u128;
            }
            j += 1;
        }
        acc
    }

    /// The first block whose bucket of `(height, round, vote_type)` votes
    /// holds a strict super-majority, with its voters in arrival order.
    /// `None` while no bucket does.
    pub fn try_get_qc(
        &self,
        auth: &AuthorityManage,
        height: u64,
        round: u64,
        vote_type: VoteType,
    ) -> (r: Option<(BlockHash, Vec<Address>)>)
        ensures
            r is Some <==> exists|k: int|
                0 <= k < self.votes_view().len() && keyed(
                    #[trigger] self.votes_view()[k],
                    height,
                    round,
                    vote_type,
                ) && crossing(
                    auth.roster(),
                    self.votes_view(),
                    height,
                    round,
                    vote_type,
                    self.votes_view()[k].hash,
                ),
            r matches Some((hash, voters)) ==> crossing(
                auth.roster(),
                self.votes_view(),
                height,
                round,
                vote_type,
                hash@,
            ) && voters@.map_values(|a: Address| a@) == bucket_voters(
                self.votes_view(),
                height,
                round,
                vote_type,
                hash@,
            ),
    {
        let ghost roster = auth.roster();
        let ghost votes = self.votes_view();
        let n = auth.len();
        proof {
            assert(roster.len() == n);
        }
        let total = auth.vote_total();
        let mut k: usize = 0;
        while k < self.votes.len()
            invariant
                k <= self.votes@.len(),
                votes == self.votes_view(),
                roster == auth.roster(),
                votes.len() == self.votes@.len(),
                total == total_weight(roster),
                total <= roster.len() * 0x1_0000_0000,
                roster.len() <= 0xffff_ffff_ffff_ffff,
                forall|k2: int|
                    0 <= k2 < k && keyed(#[trigger] votes[k2], height, round, vote_type)
                        ==> !crossing(roster, votes, height, round, vote_type, votes[k2].hash),
            decreases self.votes.len() - k,
        {
            let v = &self.votes[k];
            if v.vote.height == height && v.vote.round == round && v.vote.vote_type == vote_type {
                let w = self.weigh_bucket(auth, height, round, vote_type, &v.vote.block_hash);
                proof {
                    assert(roster.len() * 0x1_0000_0000 <= 0xffff_ffff_ffff_ffff
                        * 0x1_0000_0000) by (nonlinear_arith)
                        requires
                            roster.len() <= 0xffff_ffff_ffff_ffff,
                    ;
                    assert(self.votes@.len() * 0x1_0000_0000 <= 0xffff_ffff_ffff_ffff
                        * 0x1_0000_0000) by (nonlinear_arith)
                        requires
                            self.votes@.len() <= 0xffff_ffff_ffff_ffff,
                    ;
                }
                if 3 * w > 2 * total {
                    let hash = crate::types::copy_bytes(&v.vote.block_hash);
                    let voters = self.collect_bucket(height, round, vote_type, &hash);
                    proof {
                        assert(keyed(votes[k as int], height, round, vote_type) && crossing(
                            roster,
                            votes,
                            height,
                            round,
                            vote_type,
                            votes[k as int].hash,
                        ));
                    }
                    return Some((hash, voters));
                }
            }
            k += 1;
        }
        None
    }

    /// The voters of a bucket, in arrival order.
    fn collect_bucket(
        &self,
        height: u64,
        round: u64,
        vote_type: VoteType,
        hash: &BlockHash,
    ) -> (voters: Vec<Address>)
        ensures
            voters@.map_values(|a: Address| a@) == bucket_voters(
                self.votes_view(),
                height,
                round,
                vote_type,
                hash@,
            ),
    {
        let ghost votes = self.votes_view();
        let mut voters: Vec<Address> = Vec::new();
        let mut j: usize = 0;
        while j < self.votes.len()
            invariant
                j <= self.votes@.len(),
                votes == self.votes_view(),
                votes.len() == self.votes@.len(),
                voters@.map_values(|a: Address| a@) =~= bucket_voters_to(
                    votes,
                    height,
                    round,
                    vote_type,
                    hash@,
                    j as int,
                ),
            decreases self.votes.len() - j,
        {
            let v = &self.votes[j];
            if v.vote.height == height && v.vote.round == round && v.vote.vote_type == vote_type
                && crate::types::bytes_eq(&v.vote.block_hash, hash) {
                voters.push(crate::types::copy_bytes(&v.voter));
            }
            j += 1;
            proof {
                assert(voters@.map_values(|a: Address| a@) =~= bucket_voters_to(
                    votes,
                    height,
                    round,
                    vote_type,
                    hash@,
                    j as int,
                ));
            }
        }
        voters
    }

    /// The choke quorum of `(height, round)`: when the senders that choked
    /// the round hold a strict super-majority of the roster's vote weight,
    /// their list in arrival order; `None` while they do not.
    pub fn try_get_choke_qc(&self, auth: &AuthorityManage, height: u64, round: u64) -> (r: Option<
        Vec<Address>,
    >)
        ensures
            r is Some <==> 3 * choke_weight(auth.roster(), self.chokes_view(), height, round) > 2
                * total_weight(auth.roster()),
            r matches Some(v) ==> v@.map_values(|a: Address| a@) == choke_senders(
                self.chokes_view(),
                height,
                round,
            ),
    {
        let ghost roster = auth.roster();
        let ghost chokes = self.chokes_view();
        let n = auth.len();
        proof {
            assert(roster.len() == n);
        }
        let total = auth.vote_total();
        let mut acc: u128 = 0;
        let mut j: usize = 0;
        while j < self.chokes.len()
            invariant
                j <= self.chokes@.len(),
                chokes == self.chokes_view(),
                roster == auth.roster(),
                chokes.len() == self.chokes@.len(),
                acc == choke_weight_to(roster, chokes, height, round, j as int),
                acc <= j * 0x1_0000_0000,
            decreases self.chokes.len() - j,
        {
            let c = &self.chokes[j];
            proof {
                assert((j + 1) * 0x1_0000_0000 == j * 0x1_0000_0000 + 0x1_0000_0000)
                    by (nonlinear_arith);
            }
            if c.choke.height == height && c.choke.round == round {
                let w = auth.get_vote_weight(&c.address);
                proof {
                    assert(w == vote_weight_of(roster, chokes[j as int].address));
                    assert(w <= 0xffff_ffff);
                }
                acc = acc + w as u128;
            }
            j += 1;
        }
        proof {
            assert(roster.len() * 0x1_0000_0000 <= 0xffff_ffff_ffff_ffff
                * 0x1_0000_0000) by (nonlinear_arith)
                requires
                    roster.len() <= 0xffff_ffff_ffff_ffff,
            ;
            assert(self.chokes@.len() * 0x1_0000_0000 <= 0xffff_ffff_ffff_ffff
                * 0x1_0000_0000) by (nonlinear_arith)
                requires
                    self.chokes@.len() <= 0xffff_ffff_ffff_ffff,
            ;
        }
        if 3 * acc > 2 * total {
            let mut senders: Vec<Address> = Vec::new();
            let mut i: usize = 0;
            while i < self.chokes.len()
                invariant
                    i <= self.chokes@.len(),
                    chokes == self.chokes_view(),
                    chokes.len() == self.chokes@.len(),
                    senders@.map_values(|a: Address| a@) =~= choke_senders_to(
                        chokes,
                        height,
                        round,
                        i as int,
                    ),
                decreases self.chokes.len() - i,
            {
                let c = &self.chokes[i];
                if c.choke.height == height && c.choke.round == round {
                    senders.push(crate::types::copy_bytes(&c.address));
                }
                i += 1;
                proof {
                    assert(senders@.map_values(|a: Address| a@) =~= choke_senders_to(
                        chokes,
                        height,
                        round,
                        i as int,
                    ));
                }
            }
            Some(senders)
        } else {
            None
        }
    }

    /// The distinct blocks voted for under `(height, round, vote_type)`.
    pub fn get_block_hashes(&self, height: u64, round: u64, vote_type: VoteType) -> (r: Vec<
        BlockHash,
    >)
        ensures
            forall|s: Seq<u8>|
                #![trigger hashes_view(r@).contains(s)]
                hashes_view(r@).contains(s) <==> voted_hash_to(
                    self.votes_view(),
                    height,
                    round,
                    vote_type,
                    s,
                    self.votes_view().len() as int,
                ),
            forall|p: int, q: int|
                0 <= p < q < r@.len() ==> #[trigger] hashes_view(r@)[p] != #[trigger] hashes_view(
                    r@,
                )[q],
    {
        let ghost votes = self.votes_view();
        let mut out: Vec<BlockHash> = Vec::new();
        let mut i: usize = 0;
        while i < self.votes.len()
            invariant
                i <= self.votes@.len(),
                votes == self.votes_view(),
                votes.len() == self.votes@.len(),
                forall|s: Seq<u8>|
                    #![trigger hashes_view(out@).contains(s)]
                    hashes_view(out@).contains(s) <==> voted_hash_to(
                        votes,
                        height,
                        round,
                        vote_type,
                        s,
                        i as int,
                    ),
                forall|p: int, q: int|
                    0 <= p < q < out@.len() ==> #[trigger] hashes_view(out@)[p]
                        != #[trigger] hashes_view(out@)[q],
            decreases self.votes.len() - i,
        {
            let ghost out_pre = hashes_view(out@);
            let v = &self.votes[i];
            let hit = v.vote.height == height && v.vote.round == round && v.vote.vote_type
                == vote_type;
            if hit {
                let mut seen = false;
                let mut j: usize = 0;
                while j < out.len()
                    invariant
                        j <= out@.len(),
                        out_pre == hashes_view(out@),
                        out_pre.len() == out@.len(),
                        seen <==> exists|q: int| 0 <= q < j && out_pre[q] == v.vote.block_hash@,
                    decreases out.len() - j,
                {
                    if crate::types::bytes_eq(&out[j], &v.vote.block_hash) {
                        proof {
                            assert(out_pre[j as int] == v.vote.block_hash@);
                        }
                        seen = true;
                    }
                    j += 1;
                }
                if !seen {
                    out.push(crate::types::copy_bytes(&v.vote.block_hash));
                    proof {
                        let out_post = hashes_view(out@);
                        assert(out_post =~= out_pre.push(votes[i as int].hash));
                        assert forall|s: Seq<u8>|
                            #![trigger out_post.contains(s)]
                            out_post.contains(s) <==> voted_hash_to(
                                votes,
                                height,
                                round,
                                vote_type,
                                s,
                                i + 1,
                            ) by {
                            if out_post.contains(s) {
                                let q = choose|q: int|
                                    0 <= q < out_post.len() && out_post[q] == s;
                                if q < out_pre.len() {
                                    assert(out_pre.contains(s));
                                } else {
                                    assert(s == votes[i as int].hash);
                                    assert(keyed(votes[i as int], height, round, vote_type));
                                }
                            }
                            if voted_hash_to(votes, height, round, vote_type, s, i + 1) {
                                let w = choose|w: int|
                                    0 <= w < i + 1 && keyed(
                                        #[trigger] votes[w],
                                        height,
                                        round,
                                        vote_type,
                                    ) && votes[w].hash == s;
                                if w < i {
                                    assert(voted_hash_to(votes, height, round, vote_type, s, i as int));
                                    assert(out_pre.contains(s));
                                    let q = choose|q: int|
                                        0 <= q < out_pre.len() && out_pre[q] == s;
                                    assert(out_post[q] == s);
                                } else {
                                    assert(out_post[out_post.len() - 1] == s);
                                }
                            }
                        }
                    }
                } else {
                    proof {
                        let q = choose|q: int| 0 <= q < out_pre.len() && out_pre[q] == v.vote.block_hash@;
                        assert(out_pre.contains(votes[i as int].hash));
                        assert forall|s: Seq<u8>|
                            #![trigger out_pre.contains(s)]
                            out_pre.contains(s) <==> voted_hash_to(
                                votes,
                                height,
                                round,
                                vote_type,
                                s,
                                i + 1,
                            ) by {
                            if voted_hash_to(votes, height, round, vote_type, s, i + 1)
                                && !voted_hash_to(votes, height, round, vote_type, s, i as int) {
                                let w = choose|w: int|
                                    0 <= w < i + 1 && keyed(
                                        #[trigger] votes[w],
                                        height,
                                        round,
                                        vote_type,
                                    ) && votes[w].hash == s;
                                assert(w == i);
                                assert(s == votes[i as int].hash);
                            }
                        }
                    }
                }
            } else {
                proof {
                    assert forall|s: Seq<u8>|
                        #![trigger out_pre.contains(s)]
                        out_pre.contains(s) <==> voted_hash_to(
                            votes,
                            height,
                            round,
                            vote_type,
                            s,
                            i + 1,
                        ) by {
                        if voted_hash_to(votes, height, round, vote_type, s, i + 1)
                            && !voted_hash_to(votes, height, round, vote_type, s, i as int) {
                            let w = choose|w: int|
                                0 <= w < i + 1 && keyed(
                                    #[trigger] votes[w],
                                    height,
                                    round,
                                    vote_type,
                                ) && votes[w].hash == s;
                            assert(w == i);
                            assert(false);
                        }
                    }
                }
            }
            i += 1;
        }
        out
    }

    /// Drop everything below a height.
    pub fn flush(&mut self, height: u64)
        requires
            old(self).wf(),
        ensures
            final(self).wf(),
            final(self).votes_view() == old(self).votes_view().filter(
                |v: SignedVoteV| v.height >= height,
            ),
            final(self).chokes_view() == old(self).chokes_view().filter(
                |c: SignedChokeV| c.height >= height,
            ),
    {
        let ghost pre_votes = self.votes_view();
        let ghost pre_chokes = self.chokes_view();
        let mut kept: Vec<SignedVote> = Vec::new();
        let mut i: usize = 0;
        while i < self.votes.len()
            invariant
                i <= self.votes@.len(),
                pre_votes == self.votes_view(),
                pre_votes.len() == self.votes@.len(),
                kept@.map_values(|v: SignedVote| v@) =~= pre_votes.take(i as int).filter(
                    |v: SignedVoteV| v.height >= height,
                ),
            decreases self.votes.len() - i,
        {
            let ghost taken = pre_votes.take(i as int);
            proof {
                assert(pre_votes.take(i + 1).drop_last() =~= taken);
                assert(pre_votes.take(i + 1).last() == pre_votes[i as int]);
                reveal_with_fuel(Seq::filter, 2);
            }
            let v = &self.votes[i];
            if v.vote.height >= height {
                kept.push(self.votes[i].clone_record());
            }
            i += 1;
            proof {
                assert(kept@.map_values(|v: SignedVote| v@) =~= pre_votes.take(i as int).filter(
                    |v: SignedVoteV| v.height >= height,
                ));
            }
        }
        proof {
            assert(pre_votes.take(pre_votes.len() as int) =~= pre_votes);
        }
        self.votes = kept;
        let mut kept_c: Vec<SignedChoke> = Vec::new();
        let mut j: usize = 0;
        while j < self.chokes.len()
            invariant
                j <= self.chokes@.len(),
                pre_chokes == self.chokes_view(),
                pre_chokes.len() == self.chokes@.len(),
                kept_c@.map_values(|c: SignedChoke| c@) =~= pre_chokes.take(j as int).filter(
                    |c: SignedChokeV| c.height >= height,
                ),
            decreases self.chokes.len() - j,
        {
            let ghost taken = pre_chokes.take(j as int);
            proof {
                assert(pre_chokes.take(j + 1).drop_last() =~= taken);
                assert(pre_chokes.take(j + 1).last() == pre_chokes[j as int]);
                reveal_with_fuel(Seq::filter, 2);
            }
            let c = &self.chokes[j];
            if c.choke.height >= height {
                kept_c.push(self.chokes[j].clone_record());
            }
            j += 1;
            proof {
                assert(kept_c@.map_values(|c: SignedChoke| c@) =~= pre_chokes.take(j as int).filter(
                    |c: SignedChokeV| c.height >= height,
                ));
            }
        }
        proof {
            assert(pre_chokes.take(pre_chokes.len() as int) =~= pre_chokes);
        }
        self.chokes = kept_c;
        proof {
            lemma_filter_votes_distinct(pre_votes, |v: SignedVoteV| v.height >= height);
            lemma_filter_chokes_distinct(pre_chokes, |c: SignedChokeV| c.height >= height);
        }
    }
}

/// Every voter a bucket names comes from a vote of that bucket among the
/// first `k` records.
proof fn lemma_bucket_voter_source(
    votes: Seq<SignedVoteV>,
    height: u64,
    round: u64,
    vote_type: VoteType,
    hash: Seq<u8>,
    k: int,
    p: int,
)
    requires
        k <= votes.len(),
        0 <= p < bucket_voters_to(votes, height, round, vote_type, hash, k).len(),
    ensures
        exists|j: int|
            0 <= j < k && keyed(#[trigger] votes[j], height, round, vote_type) && votes[j].hash
                == hash && votes[j].voter == bucket_voters_to(
                votes,
                height,
                round,
                vote_type,
                hash,
                k,
            )[p],
    decreases k,
{
    if k > 0 {
        let prev = bucket_voters_to(votes, height, round, vote_type, hash, k - 1);
        if p < prev.len() {
            lemma_bucket_voter_source(votes, height, round, vote_type, hash, k - 1, p);
        } else {
            assert(keyed(votes[k - 1], height, round, vote_type) && votes[k - 1].hash == hash);
            assert(bucket_voters_to(votes, height, round, vote_type, hash, k)[p] == votes[k
                - 1].voter);
        }
    }
}

/// In a well-formed tally a quorum certificate names no voter twice: at
/// most one prevote and one precommit per `(height, round)` count per
/// voter.
pub proof fn theorem_qc_voters_distinct(
    votes: Seq<SignedVoteV>,
    height: u64,
    round: u64,
    vote_type: VoteType,
    hash: Seq<u8>,
)
    requires
        votes_distinct(votes),
    ensures
        forall|p: int, q: int|
            0 <= p < q < bucket_voters(votes, height, round, vote_type, hash).len()
                ==> #[trigger] bucket_voters(votes, height, round, vote_type, hash)[p]
                != #[trigger] bucket_voters(votes, height, round, vote_type, hash)[q],
{
    lemma_bucket_voters_distinct_to(votes, height, round, vote_type, hash, votes.len() as int);
}

/// The induction behind `theorem_qc_voters_distinct`.
proof fn lemma_bucket_voters_distinct_to(
    votes: Seq<SignedVoteV>,
    height: u64,
    round: u64,
    vote_type: VoteType,
    hash: Seq<u8>,
    k: int,
)
    requires
        votes_distinct(votes),
        k <= votes.len(),
    ensures
        forall|p: int, q: int|
            0 <= p < q < bucket_voters_to(votes, height, round, vote_type, hash, k).len()
                ==> #[trigger] bucket_voters_to(votes, height, round, vote_type, hash, k)[p]
                != #[trigger] bucket_voters_to(votes, height, round, vote_type, hash, k)[q],
    decreases k,
{
    if k > 0 {
        lemma_bucket_voters_distinct_to(votes, height, round, vote_type, hash, k - 1);
        let prev = bucket_voters_to(votes, height, round, vote_type, hash, k - 1);
        let cur = bucket_voters_to(votes, height, round, vote_type, hash, k);
        assert forall|p: int, q: int| 0 <= p < q < cur.len() implies #[trigger] cur[p]
            != #[trigger] cur[q] by {
            if q < prev.len() {
                assert(cur[p] == prev[p] && cur[q] == prev[q]);
            } else if q == prev.len() && prev.len() < cur.len() {
                assert(cur[q] == votes[k - 1].voter);
                assert(cur[p] == prev[p]);
                lemma_bucket_voter_source(votes, height, round, vote_type, hash, k - 1, p);
                let j = choose|j: int|
                    0 <= j < k - 1 && keyed(#[trigger] votes[j], height, round, vote_type)
                        && votes[j].hash == hash && votes[j].voter == prev[p];
                assert(!clashes(votes[j], votes[k - 1]));
            }
        }
    }
}

/// The roster positions of the voters counted in either of two buckets
/// among the first `k` votes.
spec fn counted_indices(
    roster: Seq<crate::authority::NodeV>,
    votes: Seq<SignedVoteV>,
    height: u64,
    round: u64,
    vote_type: VoteType,
    b1: Seq<u8>,
    b2: Seq<u8>,
    k: int,
) -> Set<int>
    decreases k,
{
    if k <= 0 {
        Set::empty()
    } else {
        let prev = counted_indices(roster, votes, height, round, vote_type, b1, b2, k - 1);
        if keyed(votes[k - 1], height, round, vote_type) && (votes[k - 1].hash == b1 || votes[k
            - 1].hash == b2) && crate::authority::first_index(roster, votes[k - 1].voter) >= 0 {
            prev.insert(crate::authority::first_index(roster, votes[k - 1].voter))
        } else {
            prev
        }
    }
}

/// Two buckets of one tally never weigh more together than the roster
/// positions of their voters, because a voter is counted at most once.
proof fn lemma_two_buckets_bound(
    roster: Seq<crate::authority::NodeV>,
    votes: Seq<SignedVoteV>,
    height: u64,
    round: u64,
    vote_type: VoteType,
    b1: Seq<u8>,
    b2: Seq<u8>,
    k: int,
)
    requires
        votes_distinct(votes),
        b1 != b2,
        k <= votes.len(),
    ensures
        bucket_weight_to(roster, votes, height, round, vote_type, b1, k) + bucket_weight_to(
            roster,
            votes,
            height,
            round,
            vote_type,
            b2,
            k,
        ) <= crate::authority::picked_weight(
            roster,
            counted_indices(roster, votes, height, round, vote_type, b1, b2, k),
            roster.len() as int,
        ),
        forall|idx: int|
            #![trigger counted_indices(roster, votes, height, round, vote_type, b1, b2, k).contains(idx)]
            counted_indices(roster, votes, height, round, vote_type, b1, b2, k).contains(idx)
                ==> exists|j: int|
                0 <= j < k && keyed(#[trigger] votes[j], height, round, vote_type) && (votes[j].hash
                    == b1 || votes[j].hash == b2) && crate::authority::first_index(
                    roster,
                    votes[j].voter,
                ) == idx,
    decreases k,
{
    if k > 0 {
        lemma_two_buckets_bound(roster, votes, height, round, vote_type, b1, b2, k - 1);
        let prev = counted_indices(roster, votes, height, round, vote_type, b1, b2, k - 1);
        let cur = counted_indices(roster, votes, height, round, vote_type, b1, b2, k);
        let v = votes[k - 1];
        if keyed(v, height, round, vote_type) && (v.hash == b1 || v.hash == b2) {
            crate::authority::lemma_first_index(roster, v.voter);
            let fi = crate::authority::first_index(roster, v.voter);
            if fi >= 0 {
                assert(!prev.contains(fi)) by {
                    if prev.contains(fi) {
                        let j = choose|j: int|
                            0 <= j < k - 1 && keyed(#[trigger] votes[j], height, round, vote_type)
                                && (votes[j].hash == b1 || votes[j].hash == b2)
                                && crate::authority::first_index(roster, votes[j].voter) == fi;
                        crate::authority::lemma_first_index(roster, votes[j].voter);
                        assert(votes[j].voter == roster[fi].address);
                        assert(v.voter == roster[fi].address);
                        assert(clashes(votes[j], votes[k - 1]));
                        assert(false);
                    }
                }
                crate::authority::lemma_picked_weight_insert(
                    roster,
                    prev,
                    fi,
                    roster.len() as int,
                );
                assert(cur =~= prev.insert(fi));
                assert(vote_weight_of(roster, v.voter) == roster[fi].vote_weight);
                assert(crate::authority::picked_weight(roster, cur, roster.len() as int)
                    == crate::authority::picked_weight(roster, prev, roster.len() as int)
                    + roster[fi].vote_weight as int);
                assert(bucket_weight_to(roster, votes, height, round, vote_type, b1, k)
                    + bucket_weight_to(roster, votes, height, round, vote_type, b2, k)
                    == bucket_weight_to(roster, votes, height, round, vote_type, b1, k - 1)
                    + bucket_weight_to(roster, votes, height, round, vote_type, b2, k - 1)
                    + vote_weight_of(roster, v.voter) as int);
                assert forall|idx: int| #![trigger cur.contains(idx)] cur.contains(idx)
                    implies exists|j: int|
                    0 <= j < k && keyed(#[trigger] votes[j], height, round, vote_type) && (
                    votes[j].hash == b1 || votes[j].hash == b2)
                        && crate::authority::first_index(roster, votes[j].voter) == idx by {
                    if idx == fi {
                        assert(keyed(votes[k - 1], height, round, vote_type) && (votes[k - 1].hash
                            == b1 || votes[k - 1].hash == b2) && crate::authority::first_index(
                            roster,
                            votes[k - 1].voter,
                        ) == idx);
                    } else {
                        assert(prev.contains(idx));
                    }
                }
            } else {
                assert(vote_weight_of(roster, v.voter) == 0);
                assert(cur == prev);
            }
        } else {
            assert(cur == prev);
        }
    } else {
        crate::authority::lemma_picked_weight_le_total(
            roster,
            counted_indices(roster, votes, height, round, vote_type, b1, b2, k),
            roster.len() as int,
        );
    }
}

/// One tally can crown only one block: in a well-formed tally two buckets
/// that both hold a strict super-majority name the same block. A single
/// collector therefore never yields two conflicting certificates for one
/// `(height, round, vote type)`.
pub proof fn theorem_no_two_quorums(
    roster: Seq<crate::authority::NodeV>,
    votes: Seq<SignedVoteV>,
    height: u64,
    round: u64,
    vote_type: VoteType,
    b1: Seq<u8>,
    b2: Seq<u8>,
)
    requires
        votes_distinct(votes),
        crossing(roster, votes, height, round, vote_type, b1),
        crossing(roster, votes, height, round, vote_type, b2),
    ensures
        b1 == b2,
{
    if b1 != b2 {
        let k = votes.len() as int;
        lemma_two_buckets_bound(roster, votes, height, round, vote_type, b1, b2, k);
        let picked = counted_indices(roster, votes, height, round, vote_type, b1, b2, k);
        crate::authority::lemma_picked_weight_le_total(roster, picked, roster.len() as int);
        crate::authority::lemma_picked_weight_le_total(
            roster,
            Set::empty(),
            roster.len() as int,
        );
        assert(false);
    }
}

/// Every element of a filtered sequence stands in the sequence it was
/// filtered from.
proof fn lemma_filter_elem_contained<A>(s: Seq<A>, pred: spec_fn(A) -> bool, i: int)
    requires
        0 <= i < s.filter(pred).len(),
    ensures
        s.contains(s.filter(pred)[i]),
    decreases s.len(),
{
    reveal(Seq::filter);
    if s.len() > 0 {
        let init = s.drop_last();
        let fi = init.filter(pred);
        if i < fi.len() {
            lemma_filter_elem_contained(init, pred, i);
            let w = choose|w: int| 0 <= w < init.len() && init[w] == fi[i];
            assert(s[w] == fi[i]);
        } else {
            assert(s.filter(pred)[i] == s.last());
            assert(s[s.len() - 1] == s.last());
        }
    }
}

/// Filtering a tally keeps its voters distinct.
proof fn lemma_filter_votes_distinct(votes: Seq<SignedVoteV>, pred: spec_fn(SignedVoteV) -> bool)
    requires
        votes_distinct(votes),
    ensures
        votes_distinct(votes.filter(pred)),
    decreases votes.len(),
{
    reveal(Seq::filter);
    if votes.len() > 0 {
        let init = votes.drop_last();
        assert(votes_distinct(init)) by {
            assert forall|i: int, j: int| 0 <= i < j < init.len() implies !clashes(
                #[trigger] init[i],
                #[trigger] init[j],
            ) by {
                assert(!clashes(votes[i], votes[j]));
            }
        }
        lemma_filter_votes_distinct(init, pred);
        let f = votes.filter(pred);
        let fi = init.filter(pred);
        assert forall|a: int, b: int| 0 <= a < b < f.len() implies !clashes(
            #[trigger] f[a],
            #[trigger] f[b],
        ) by {
            if b < fi.len() {
                assert(f[a] == fi[a] && f[b] == fi[b]);
                assert(!clashes(fi[a], fi[b]));
            } else {
                assert(pred(votes.last()) && f[b] == votes.last());
                assert(f[a] == fi[a]);
                lemma_filter_elem_contained(init, pred, a);
                let w = choose|w: int| 0 <= w < init.len() && init[w] == fi[a];
                assert(votes[w] == fi[a]);
                assert(!clashes(votes[w], votes[votes.len() - 1]));
            }
        }
    }
}

/// Filtering a choke tally keeps its senders distinct.
proof fn lemma_filter_chokes_distinct(
    chokes: Seq<SignedChokeV>,
    pred: spec_fn(SignedChokeV) -> bool,
)
    requires
        chokes_distinct(chokes),
    ensures
        chokes_distinct(chokes.filter(pred)),
    decreases chokes.len(),
{
    reveal(Seq::filter);
    if chokes.len() > 0 {
        let init = chokes.drop_last();
        assert(chokes_distinct(init)) by {
            assert forall|i: int, j: int| 0 <= i < j < init.len() implies !choke_clashes(
                #[trigger] init[i],
                #[trigger] init[j],
            ) by {
                assert(!choke_clashes(chokes[i], chokes[j]));
            }
        }
        lemma_filter_chokes_distinct(init, pred);
        let f = chokes.filter(pred);
        let fi = init.filter(pred);
        assert forall|a: int, b: int| 0 <= a < b < f.len() implies !choke_clashes(
            #[trigger] f[a],
            #[trigger] f[b],
        ) by {
            if b < fi.len() {
                assert(f[a] == fi[a] && f[b] == fi[b]);
                assert(!choke_clashes(fi[a], fi[b]));
            } else {
                assert(pred(chokes.last()) && f[b] == chokes.last());
                assert(f[a] == fi[a]);
                lemma_filter_elem_contained(init, pred, a);
                let w = choose|w: int| 0 <= w < init.len() && init[w] == fi[a];
                assert(chokes[w] == fi[a]);
                assert(!choke_clashes(chokes[w], chokes[chokes.len() - 1]));
            }
        }
    }
}

} // verus!
