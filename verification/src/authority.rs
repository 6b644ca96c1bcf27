//! The authority manager: rosters, weights, threshold arithmetic, and the
//! bitmap-to-voter mapping.
//!
//! A quorum certificate names its voters by a big-endian bitmap of length
//! `ceil(n / 8)` bytes over the current roster: bit `i` stands for the
//! `i`-th authority in the roster's canonical order.

use vstd::prelude::*;
use vstd::pervasive::VecAdditionalExecFns;

use crate::error::{ConsensusError, ConsensusResult};
use crate::types::{Address, Node};

verus! {

/// The mathematical value of an authority.
pub ghost struct NodeV {
    pub address: Seq<u8>,
    pub propose_weight: u32,
    pub vote_weight: u32,
}

impl View for Node {
    type V = NodeV;

    open spec fn view(&self) -> NodeV {
        NodeV {
            address: self.address@,
            propose_weight: self.propose_weight,
            vote_weight: self.vote_weight,
        }
    }
}

/// The mathematical value of a roster.
pub open spec fn roster_view(v: Seq<Node>) -> Seq<NodeV> {
    v.map_values(|n: Node| n@)
}

/// Whether bit `i` is set in a big-endian bitmap.
pub open spec fn bit_set(bm: Seq<u8>, i: int) -> bool {
    0 <= i && i / 8 < bm.len() && (bm[i / 8] >> ((7 - (i % 8)) as u8)) & 1 == 1
}

/// The bitmap length a roster of `n` authorities demands.
pub open spec fn bitmap_len(n: int) -> int {
    (n + 7) / 8
}

/// Whether a bitmap has the demanded length and no bit set past the roster.
pub open spec fn bitmap_fits(bm: Seq<u8>, n: int) -> bool {
    bm.len() == bitmap_len(n) && forall|i: int| n <= i < bm.len() * 8 ==> !bit_set(bm, i)
}

/// The vote weight of the set bits among the first `k` authorities.
pub open spec fn weight_sum_to(roster: Seq<NodeV>, bm: Seq<u8>, k: int) -> int
    decreases k,
{
    if k <= 0 {
        0
    } else {
        weight_sum_to(roster, bm, k - 1) + if bit_set(bm, k - 1) {
            roster[k - 1].vote_weight as int
        } else {
            0
        }
    }
}

/// The vote weight of a bitmap's voters under a roster.
pub open spec fn weight_sum(roster: Seq<NodeV>, bm: Seq<u8>) -> int {
    weight_sum_to(roster, bm, roster.len() as int)
}

/// The total vote weight of the first `k` authorities.
pub open spec fn total_weight_to(roster: Seq<NodeV>, k: int) -> int
    decreases k,
{
    if k <= 0 {
        0
    } else {
        total_weight_to(roster, k - 1) + roster[k - 1].vote_weight as int
    }
}

/// The total vote weight of a roster.
pub open spec fn total_weight(roster: Seq<NodeV>) -> int {
    total_weight_to(roster, roster.len() as int)
}

/// The total propose weight of the first `k` authorities.
pub open spec fn propose_weight_to(roster: Seq<NodeV>, k: int) -> int
    decreases k,
{
    if k <= 0 {
        0
    } else {
        propose_weight_to(roster, k - 1) + roster[k - 1].propose_weight as int
    }
}

/// The total propose weight of a roster.
pub open spec fn total_propose_weight(roster: Seq<NodeV>) -> int {
    propose_weight_to(roster, roster.len() as int)
}

/// The addresses of the set bits among the first `k` authorities, in
/// roster order.
pub open spec fn voters_to(roster: Seq<NodeV>, bm: Seq<u8>, k: int) -> Seq<Seq<u8>>
    decreases k,
{
    if k <= 0 {
        Seq::empty()
    } else {
        voters_to(roster, bm, k - 1) + if bit_set(bm, k - 1) {
            seq![roster[k - 1].address]
        } else {
            Seq::<Seq<u8>>::empty()
        }
    }
}

/// The ordered voter list a bitmap names.
pub open spec fn voters_of(roster: Seq<NodeV>, bm: Seq<u8>) -> Seq<Seq<u8>> {
    voters_to(roster, bm, roster.len() as int)
}

/// Whether an address belongs to a roster.
pub open spec fn is_member(roster: Seq<NodeV>, addr: Seq<u8>) -> bool {
    exists|i: int| 0 <= i < roster.len() && (#[trigger] roster[i]).address == addr
}

/// No two authorities share an address: an address uniquely identifies a
/// node.
pub open spec fn roster_distinct(roster: Seq<NodeV>) -> bool {
    forall|i: int, j: int|
        0 <= i < j < roster.len() ==> (#[trigger] roster[i]).address != (
        #[trigger] roster[j]).address
}

/// Every voter a bitmap names among the first `k` authorities is the
/// address of an authority with its bit set.
proof fn lemma_voter_source(roster: Seq<NodeV>, bm: Seq<u8>, k: int, p: int)
    requires
        k <= roster.len(),
        0 <= p < voters_to(roster, bm, k).len(),
    ensures
        exists|j: int|
            0 <= j < k && bit_set(bm, j) && (#[trigger] roster[j]).address == voters_to(
                roster,
                bm,
                k,
            )[p],
    decreases k,
{
    if k > 0 {
        let prev = voters_to(roster, bm, k - 1);
        if p < prev.len() {
            lemma_voter_source(roster, bm, k - 1, p);
        } else {
            assert(bit_set(bm, k - 1) && roster[k - 1].address == voters_to(roster, bm, k)[p]);
        }
    }
}

/// Under a roster that names each authority once, the voter list a bitmap
/// resolves to repeats no address: any certificate counts at most one
/// prevote and one precommit per voter.
pub proof fn theorem_bitmap_voters_distinct(roster: Seq<NodeV>, bm: Seq<u8>)
    requires
        roster_distinct(roster),
    ensures
        forall|p: int, q: int|
            0 <= p < q < voters_of(roster, bm).len() ==> #[trigger] voters_of(roster, bm)[p]
                != #[trigger] voters_of(roster, bm)[q],
{
    lemma_voters_to_distinct(roster, bm, roster.len() as int);
}

/// The induction behind `theorem_bitmap_voters_distinct`.
proof fn lemma_voters_to_distinct(roster: Seq<NodeV>, bm: Seq<u8>, k: int)
    requires
        roster_distinct(roster),
        k <= roster.len(),
    ensures
        forall|p: int, q: int|
            0 <= p < q < voters_to(roster, bm, k).len() ==> #[trigger] voters_to(roster, bm, k)[p]
                != #[trigger] voters_to(roster, bm, k)[q],
    decreases k,
{
    if k > 0 {
        lemma_voters_to_distinct(roster, bm, k - 1);
        let prev = voters_to(roster, bm, k - 1);
        let cur = voters_to(roster, bm, k);
        assert forall|p: int, q: int| 0 <= p < q < cur.len() implies #[trigger] cur[p]
            != #[trigger] cur[q] by {
            if q < prev.len() {
                assert(cur[p] == prev[p] && cur[q] == prev[q]);
            } else if q == prev.len() && prev.len() < cur.len() {
                assert(cur[q] == roster[k - 1].address);
                assert(cur[p] == prev[p]);
                lemma_voter_source(roster, bm, k - 1, p);
                let j = choose|j: int|
                    0 <= j < k - 1 && bit_set(bm, j) && (#[trigger] roster[j]).address == prev[p];
                assert(roster[j].address != roster[k - 1].address);
            }
        }
    }
}

/// The vote weight of an address: zero for a non-member; for a member, the
/// weight at its first occurrence.
pub open spec fn vote_weight_of(roster: Seq<NodeV>, addr: Seq<u8>) -> u32
    decreases roster.len(),
{
    if roster.len() == 0 {
        0
    } else if roster[0].address == addr {
        roster[0].vote_weight
    } else {
        vote_weight_of(roster.subrange(1, roster.len() as int), addr)
    }
}

/// A propose-weight prefix sum of `k` weights stays under `k` times the
/// weight bound.
pub proof fn lemma_propose_weight_to_bound(roster: Seq<NodeV>, k: int)
    ensures
        propose_weight_to(roster, k) <= (if k <= 0 {
            0
        } else {
            k
        }) * 0x1_0000_0000,
        0 <= propose_weight_to(roster, k),
    decreases (if k <= 0 {
        0
    } else {
        k
    }),
{
    if k > 0 {
        lemma_propose_weight_to_bound(roster, k - 1);
    }
}

/// The roster position an address's weight is read from: the first entry
/// with that address, or a negative number for a non-member.
pub open spec fn first_index(roster: Seq<NodeV>, addr: Seq<u8>) -> int
    decreases roster.len(),
{
    if roster.len() == 0 {
        -1
    } else if roster[0].address == addr {
        0
    } else {
        let rest = first_index(roster.subrange(1, roster.len() as int), addr);
        if rest < 0 {
            -1
        } else {
            1 + rest
        }
    }
}

/// What `first_index` answers: a member's first entry carries its weight
/// and its address; a non-member weighs nothing.
pub proof fn lemma_first_index(roster: Seq<NodeV>, addr: Seq<u8>)
    ensures
        first_index(roster, addr) < 0 ==> vote_weight_of(roster, addr) == 0,
        first_index(roster, addr) >= 0 ==> {
            &&& first_index(roster, addr) < roster.len()
            &&& roster[first_index(roster, addr)].address == addr
            &&& vote_weight_of(roster, addr) == roster[first_index(roster, addr)].vote_weight
        },
    decreases roster.len(),
{
    if roster.len() > 0 && roster[0].address != addr {
        lemma_first_index(roster.subrange(1, roster.len() as int), addr);
    }
}

/// The vote weight of the roster entries a set of positions names, among
/// the first `k`.
pub open spec fn picked_weight(roster: Seq<NodeV>, picked: Set<int>, k: int) -> int
    decreases k,
{
    if k <= 0 {
        0
    } else {
        picked_weight(roster, picked, k - 1) + if picked.contains(k - 1) {
            roster[k - 1].vote_weight as int
        } else {
            0
        }
    }
}

/// Picked weight never exceeds the whole prefix's weight.
pub proof fn lemma_picked_weight_le_total(roster: Seq<NodeV>, picked: Set<int>, k: int)
    ensures
        picked_weight(roster, picked, k) <= total_weight_to(roster, k),
        0 <= picked_weight(roster, picked, k),
    decreases k,
{
    if k > 0 {
        lemma_picked_weight_le_total(roster, picked, k - 1);
    }
}

/// Adding one new position adds exactly its weight.
pub proof fn lemma_picked_weight_insert(roster: Seq<NodeV>, picked: Set<int>, idx: int, k: int)
    requires
        !picked.contains(idx),
    ensures
        picked_weight(roster, picked.insert(idx), k) == picked_weight(roster, picked, k) + if 0
            <= idx < k {
            roster[idx].vote_weight as int
        } else {
            0
        },
    decreases k,
{
    if k > 0 {
        lemma_picked_weight_insert(roster, picked, idx, k - 1);
    }
}

/// A bitmap's weight never exceeds the roster's total.
pub proof fn lemma_weight_sum_le_total(roster: Seq<NodeV>, bm: Seq<u8>, k: int)
    ensures
        weight_sum_to(roster, bm, k) <= total_weight_to(roster, k),
        0 <= weight_sum_to(roster, bm, k),
    decreases k,
{
    if k > 0 {
        lemma_weight_sum_le_total(roster, bm, k - 1);
    }
}

/// Rosters, weights and threshold arithmetic. `current` rules the present
/// height; `last` is kept for messages of the height just committed.
pub struct AuthorityManage {
    pub current: Vec<Node>,
    pub last: Vec<Node>,
}

impl AuthorityManage {
    /// A manager over a starting roster; there is no previous one yet.
    pub fn new(authority_list: Vec<Node>) -> (r: AuthorityManage)
        ensures
            r.current == authority_list,
            r.last@.len() == 0,
    {
        AuthorityManage { current: authority_list, last: Vec::new() }
    }

    /// The current roster's mathematical value.
    pub open spec fn roster(&self) -> Seq<NodeV> {
        roster_view(self.current@)
    }

    /// Well-formed: the host's roster names each authority once, as an
    /// address uniquely identifies a node.
    pub open spec fn wf(&self) -> bool {
        roster_distinct(self.roster())
    }

    /// Reject a voter that is not in the current roster: after a rotation
    /// a replaced member's votes no longer belong to the height.
    pub fn check_voter(&self, addr: &Address) -> (r: ConsensusResult<()>)
        ensures
            r is Ok <==> is_member(self.roster(), addr@),
            r is Err ==> r == Err::<(), ConsensusError>(ConsensusError::AuthorityErr),
    {
        let ghost roster = self.roster();
        let mut i: usize = 0;
        while i < self.current.len()
            invariant
                i <= self.current@.len(),
                roster == self.roster(),
                roster.len() == self.current@.len(),
                forall|j: int| 0 <= j < i ==> (#[trigger] roster[j]).address != addr@,
            decreases self.current.len() - i,
        {
            if crate::types::bytes_eq(&self.current[i].address, addr) {
                proof {
                    assert(roster[i as int].address == addr@);
                }
                return Ok(());
            }
            i += 1;
        }
        Err(ConsensusError::AuthorityErr)
    }

    /// On a commit, the incoming roster replaces the current one, which is
    /// kept as the last.
    pub fn update(&mut self, authority_list: Vec<Node>)
        ensures
            final(self).current == authority_list,
            final(self).last == old(self).current,
    {
        let mut incoming = authority_list;
        core::mem::swap(&mut self.current, &mut incoming);
        self.last = incoming;
    }

    /// How many authorities the current roster has.
    pub fn len(&self) -> (r: usize)
        ensures
            r == self.roster().len(),
    {
        self.current.len()
    }

    /// The vote weight of the set bits of a bitmap under the current
    /// roster, and the roster's total, as exact sums.
    fn weigh(&self, bitmap: &Vec<u8>) -> (r: (u128, u128))
        requires
            bitmap@.len() == bitmap_len(self.roster().len() as int),
        ensures
            r.0 == weight_sum(self.roster(), bitmap@),
            r.1 == total_weight(self.roster()),
            r.0 <= r.1,
            r.1 <= self.roster().len() * 0x1_0000_0000,
    {
        let ghost roster = self.roster();
        let mut sum: u128 = 0;
        let mut total: u128 = 0;
        let mut i: usize = 0;
        while i < self.current.len()
            invariant
                i <= self.current.len(),
                roster == self.roster(),
                roster.len() == self.current@.len(),
                bitmap@.len() == bitmap_len(roster.len() as int),
                sum == weight_sum_to(roster, bitmap@, i as int),
                total == total_weight_to(roster, i as int),
                sum <= total,
                total <= i * 0x1_0000_0000,
            decreases self.current.len() - i,
        {
            let w = self.current[i].vote_weight;
            proof {
                assert(roster[i as int].vote_weight == w);
                assert((i + 1) * 0x1_0000_0000 == i * 0x1_0000_0000 + 0x1_0000_0000) by (nonlinear_arith);
            }
            if bitmap_bit(bitmap, i) {
                sum = sum + w as u128;
            }
            total = total + w as u128;
            i += 1;
        }
        (sum, total)
    }

    /// Whether a bitmap's voters hold a strict super-majority: more than
    /// two thirds of the roster's vote weight. A bitmap of the wrong
    /// length does not fit the roster.
    pub fn is_above_threshold(&self, bitmap: &Vec<u8>) -> (r: ConsensusResult<()>)
        ensures
            r is Ok <==> (bitmap@.len() == bitmap_len(self.roster().len() as int) && 3
                * weight_sum(self.roster(), bitmap@) > 2 * total_weight(self.roster())),
            r == Err::<(), ConsensusError>(ConsensusError::AuthorityErr) <==> bitmap@.len()
                != bitmap_len(self.roster().len() as int),
            r == Err::<(), ConsensusError>(ConsensusError::ThresholdBelow) <==> (bitmap@.len()
                == bitmap_len(self.roster().len() as int) && 3 * weight_sum(
                self.roster(),
                bitmap@,
            ) <= 2 * total_weight(self.roster())),
    {
        let n = self.current.len();
        let need: u128 = (n as u128 + 7) / 8;
        if bitmap.len() as u128 != need {
            return Err(ConsensusError::AuthorityErr);
        }
        let (sum, total) = self.weigh(bitmap);
        proof {
            lemma_weight_sum_le_total(self.roster(), bitmap@, self.roster().len() as int);
            assert(self.roster().len() * 0x1_0000_0000 <= 0xffff_ffff_ffff_ffff
                * 0x1_0000_0000) by (nonlinear_arith)
                requires
                    self.roster().len() <= 0xffff_ffff_ffff_ffff,
            ;
        }
        if 3 * sum > 2 * total {
            Ok(())
        } else {
            Err(ConsensusError::ThresholdBelow)
        }
    }

    /// The ordered voter list a bitmap names. A bitmap of the wrong length
    /// or with a bit set past the roster does not fit it. Under a
    /// well-formed roster the list repeats no address.
    #[verifier::rlimit(30)]
    pub fn get_voters(&self, bitmap: &Vec<u8>) -> (r: ConsensusResult<Vec<Address>>)
        ensures
            r is Ok <==> bitmap_fits(bitmap@, self.roster().len() as int),
            r matches Ok(v) ==> addresses_view(v@) == voters_of(self.roster(), bitmap@),
            r matches Ok(v) ==> (self.wf() ==> forall|p: int, q: int|
                0 <= p < q < v@.len() ==> #[trigger] addresses_view(v@)[p]
                    != #[trigger] addresses_view(v@)[q]),
            r is Err ==> r == Err::<Vec<Address>, ConsensusError>(ConsensusError::AuthorityErr),
    {
        let ghost roster = self.roster();
        let n = self.current.len();
        let need: u128 = (n as u128 + 7) / 8;
        if bitmap.len() as u128 != need {
            return Err(ConsensusError::AuthorityErr);
        }
        // No bit may be set past the roster.
        let end: u128 = bitmap.len() as u128 * 8;
        let mut i: u128 = n as u128;
        while i < end
            invariant
                n <= i,
                bitmap@.len() == bitmap_len(n as int),
                n == roster.len(),
                roster == self.roster(),
                end == bitmap@.len() * 8,
                i <= end,
                forall|j: int| n <= j < i ==> !bit_set(bitmap@, j),
            decreases end - i,
        {
            let byte_idx = (i / 8) as usize;
            let sh: u8 = 7 - (i % 8) as u8;
            if (bitmap[byte_idx] >> sh) & 1 == 1 {
                proof {
                    assert(bit_set(bitmap@, i as int));
                }
                return Err(ConsensusError::AuthorityErr);
            }
            proof {
                assert(!bit_set(bitmap@, i as int));
            }
            i += 1;
        }
        let mut voters: Vec<Address> = Vec::new();
        let mut k: usize = 0;
        while k < n
            invariant
                k <= n,
                n == self.current@.len(),
                n == roster.len(),
                roster == self.roster(),
                bitmap@.len() == bitmap_len(n as int),
                addresses_view(voters@) =~= voters_to(roster, bitmap@, k as int),
            decreases n - k,
        {
            if bitmap_bit(bitmap, k) {
                let addr = crate::types::copy_bytes(&self.current[k].address);
                voters.push(addr);
            }
            k += 1;
            proof {
                assert(addresses_view(voters@) =~= voters_to(roster, bitmap@, k as int));
            }
        }
        proof {
            if roster_distinct(roster) {
                theorem_bitmap_voters_distinct(roster, bitmap@);
                assert(addresses_view(voters@) == voters_of(roster, bitmap@));
                assert forall|p: int, q: int|
                    0 <= p < q < voters@.len() implies #[trigger] addresses_view(voters@)[p]
                    != #[trigger] addresses_view(voters@)[q] by {
                    assert(voters_of(roster, bitmap@)[p] != voters_of(roster, bitmap@)[q]);
                }
            }
        }
        Ok(voters)
    }

    /// The vote weight of an address under the current roster: zero for a
    /// non-member.
    pub fn get_vote_weight(&self, addr: &Address) -> (r: u64)
        ensures
            r == vote_weight_of(self.roster(), addr@),
    {
        let ghost roster = self.roster();
        proof {
            assert(roster.subrange(0, roster.len() as int) =~= roster);
        }
        let mut i: usize = 0;
        while i < self.current.len()
            invariant
                i <= self.current@.len(),
                roster == self.roster(),
                roster.len() == self.current@.len(),
                vote_weight_of(roster, addr@) == vote_weight_of(
                    roster.subrange(i as int, roster.len() as int),
                    addr@,
                ),
            decreases self.current.len() - i,
        {
            let ghost tail = roster.subrange(i as int, roster.len() as int);
            if crate::types::bytes_eq(&self.current[i].address, addr) {
                proof {
                    assert(tail[0] == roster[i as int]);
                }
                return self.current[i].vote_weight as u64;
            }
            proof {
                assert(tail[0] == roster[i as int]);
                assert(tail.subrange(1, tail.len() as int) =~= roster.subrange(
                    i + 1,
                    roster.len() as int,
                ));
            }
            i += 1;
        }
        proof {
            assert(roster.subrange(roster.len() as int, roster.len() as int).len() == 0);
        }
        0
    }

    /// The proposer of `(height, round)`: a weighted round robin over the
    /// current roster by propose weight, stepping once per height and per
    /// round. The answer is the authority whose cumulative propose-weight
    /// interval holds `(height + round) mod total`.
    pub fn get_proposer(&self, height: u64, round: u64) -> (r: ConsensusResult<Address>)
        ensures
            r is Ok <==> total_propose_weight(self.roster()) > 0,
            r matches Ok(a) ==> exists|idx: int|
                0 <= idx < self.roster().len() && a@ == self.roster()[idx].address
                    && propose_weight_to(self.roster(), idx) <= (height + round) % (
                total_propose_weight(self.roster()) as int) < propose_weight_to(
                    self.roster(),
                    idx + 1,
                ),
            r is Err ==> r == Err::<Address, ConsensusError>(ConsensusError::AuthorityErr),
    {
        let ghost roster = self.roster();
        let total = self.total_propose();
        if total == 0 {
            return Err(ConsensusError::AuthorityErr);
        }
        let seed: u128 = height as u128 + round as u128;
        let m: u128 = seed % total;
        proof {
            assert(m == (height + round) % (total_propose_weight(roster) as int));
        }
        let mut acc: u128 = 0;
        let mut i: usize = 0;
        while i < self.current.len()
            invariant
                i <= self.current@.len(),
                roster == self.roster(),
                roster.len() == self.current@.len(),
                acc == propose_weight_to(roster, i as int),
                m == (height + round) % (total_propose_weight(roster) as int),
                m < total_propose_weight(roster),
                total_propose_weight(roster) <= roster.len() * 0x1_0000_0000,
                acc <= m,
            decreases self.current.len() - i,
        {
            let w = self.current[i].propose_weight;
            proof {
                assert(roster[i as int].propose_weight == w);
                lemma_propose_weight_to_bound(roster, i as int);
                assert(roster.len() * 0x1_0000_0000 <= 0xffff_ffff_ffff_ffff
                    * 0x1_0000_0000) by (nonlinear_arith)
                    requires
                        roster.len() <= 0xffff_ffff_ffff_ffff,
                ;
            }
            if m < acc + w as u128 {
                let a = crate::types::copy_bytes(&self.current[i].address);
                proof {
                    let idx = i as int;
                    assert(propose_weight_to(roster, idx + 1) == propose_weight_to(roster, idx)
                        + w);
                    assert(0 <= idx < roster.len() && a@ == roster[idx].address
                        && propose_weight_to(roster, idx) <= (height + round) % (
                    total_propose_weight(roster) as int) < propose_weight_to(roster, idx + 1));
                }
                return Ok(a);
            }
            acc = acc + w as u128;
            i += 1;
        }
        proof {
            assert(acc == total_propose_weight(roster));
            assert(false);
        }
        Err(ConsensusError::AuthorityErr)
    }

    /// The total vote weight of the current roster.
    pub fn vote_total(&self) -> (r: u128)
        ensures
            r == total_weight(self.roster()),
            r <= self.roster().len() * 0x1_0000_0000,
    {
        let ghost roster = self.roster();
        let mut total: u128 = 0;
        let mut i: usize = 0;
        while i < self.current.len()
            invariant
                i <= self.current@.len(),
                roster == self.roster(),
                roster.len() == self.current@.len(),
                total == total_weight_to(roster, i as int),
                total <= i * 0x1_0000_0000,
            decreases self.current.len() - i,
        {
            let w = self.current[i].vote_weight;
            proof {
                assert(roster[i as int].vote_weight == w);
                assert((i + 1) * 0x1_0000_0000 == i * 0x1_0000_0000 + 0x1_0000_0000) by (nonlinear_arith);
            }
            total = total + w as u128;
            i += 1;
        }
        total
    }

    /// The total propose weight of the current roster.
    fn total_propose(&self) -> (r: u128)
        ensures
            r == total_propose_weight(self.roster()),
            r <= self.roster().len() * 0x1_0000_0000,
    {
        let ghost roster = self.roster();
        let mut total: u128 = 0;
        let mut i: usize = 0;
        while i < self.current.len()
            invariant
                i <= self.current@.len(),
                roster == self.roster(),
                roster.len() == self.current@.len(),
                total == propose_weight_to(roster, i as int),
                total <= i * 0x1_0000_0000,
            decreases self.current.len() - i,
        {
            let w = self.current[i].propose_weight;
            proof {
                assert(roster[i as int].propose_weight == w);
                assert((i + 1) * 0x1_0000_0000 == i * 0x1_0000_0000 + 0x1_0000_0000) by (nonlinear_arith);
            }
            total = total + w as u128;
            i += 1;
        }
        total
    }
}

/// The mathematical values of a list of addresses.
pub open spec fn addresses_view(v: Seq<Address>) -> Seq<Seq<u8>> {
    v.map_values(|a: Address| a@)
}

/// Whether an address stands in a voter list.
fn address_listed(voters: &Vec<Address>, addr: &Address) -> (r: bool)
    ensures
        r == addresses_view(voters@).contains(addr@),
{
    let ghost listed = addresses_view(voters@);
    let mut i: usize = 0;
    while i < voters.len()
        invariant
            i <= voters@.len(),
            listed == voters@.map_values(|a: Address| a@),
            listed.len() == voters@.len(),
            forall|j: int| 0 <= j < i ==> listed[j] != addr@,
        decreases voters.len() - i,
    {
        if crate::types::bytes_eq(&voters[i], addr) {
            proof {
                assert(listed[i as int] == addr@);
            }
            return true;
        }
        i += 1;
    }
    false
}

impl AuthorityManage {
    /// The bitmap that names the listed voters under the current roster:
    /// bit `i` is set exactly when the `i`-th authority's address is
    /// listed, and no bit is set past the roster.
    pub fn make_bitmap(&self, voters: &Vec<Address>) -> (r: Vec<u8>)
        ensures
            r@.len() == bitmap_len(self.roster().len() as int),
            forall|i: int|
                0 <= i < self.roster().len() ==> (bit_set(r@, i) <==> addresses_view(
                    voters@,
                ).contains(self.roster()[i].address)),
            bitmap_fits(r@, self.roster().len() as int),
    {
        let ghost roster = self.roster();
        let n = self.current.len();
        let need = (n as u128 + 7) / 8;
        let mut bm: Vec<u8> = Vec::new();
        let mut b: u128 = 0;
        while b < need
            invariant
                b <= need,
                bm@.len() == b,
                forall|j: int| 0 <= j < bm@.len() ==> bm@[j] == 0u8,
            decreases need - b,
        {
            bm.push(0u8);
            b += 1;
        }
        proof {
            assert(bm@.len() == bitmap_len(n as int));
            assert forall|i: int| 0 <= i implies !bit_set(bm@, i) by {
                if i / 8 < bm@.len() {
                    let sh = (7 - (i % 8)) as u8;
                    assert((0u8 >> sh) & 1 == 0) by (bit_vector);
                }
            }
        }
        let mut k: usize = 0;
        while k < n
            invariant
                k <= n,
                n == self.current@.len(),
                n == roster.len(),
                roster == self.roster(),
                bm@.len() == bitmap_len(n as int),
                forall|i: int|
                    0 <= i < k ==> (bit_set(bm@, i) <==> addresses_view(voters@).contains(
                        roster[i].address,
                    )),
                forall|i: int| k <= i ==> !bit_set(bm@, i),
            decreases n - k,
        {
            let ghost pre = bm@;
            if address_listed(voters, &self.current[k].address) {
                let byte_idx = k / 8;
                let sh: u8 = 7 - (k % 8) as u8;
                proof {
                    assert(k / 8 < bm@.len());
                }
                let updated = bm[byte_idx] | (1u8 << sh);
                bm.set(byte_idx, updated);
                proof {
                    let old_byte = pre[byte_idx as int];
                    assert forall|i: int| #![trigger bit_set(bm@, i)] 0 <= i implies (bit_set(
                        bm@,
                        i,
                    ) <==> (i == k || bit_set(pre, i))) by {
                        if i / 8 < bm@.len() {
                            let shi = (7 - (i % 8)) as u8;
                            if i / 8 == byte_idx as int {
                                if i == k {
                                    assert(shi == sh);
                                    assert(((old_byte | (1u8 << sh)) >> sh) & 1 == 1)
                                        by (bit_vector)
                                        requires
                                            sh < 8,
                                    ;
                                } else {
                                    assert(0 <= i % 8 < 8 && 0 <= k % 8 < 8);
                                    assert(shi != sh);
                                    assert(shi < 8 && sh < 8);
                                    assert(shi != sh && shi < 8 && sh < 8 ==> ((old_byte | (1u8
                                        << sh)) >> shi) & 1 == (old_byte >> shi) & 1)
                                        by (bit_vector);
                                }
                            } else {
                                assert(bm@[i / 8] == pre[i / 8]);
                            }
                        }
                    }
                    assert forall|i: int|
                        0 <= i < k + 1 implies (bit_set(bm@, i) <==> addresses_view(
                        voters@,
                    ).contains(roster[i].address)) by {
                        if i < k {
                            assert(bit_set(pre, i) <==> addresses_view(voters@).contains(
                                roster[i].address,
                            ));
                        }
                    }
                    assert forall|i: int| k + 1 <= i implies !bit_set(bm@, i) by {
                        assert(!bit_set(pre, i));
                    }
                }
            } else {
                proof {
                    assert(!addresses_view(voters@).contains(roster[k as int].address));
                    assert(bm@ == pre);
                    assert forall|i: int|
                        0 <= i < k + 1 implies (bit_set(bm@, i) <==> addresses_view(
                        voters@,
                    ).contains(roster[i].address)) by {
                        if i < k {
                            assert(bit_set(pre, i) <==> addresses_view(voters@).contains(
                                roster[i].address,
                            ));
                        }
                    }
                    assert forall|i: int| k + 1 <= i implies !bit_set(bm@, i) by {
                        assert(!bit_set(pre, i));
                    }
                }
            }
            k += 1;
        }
        proof {
            assert(bitmap_fits(bm@, n as int));
        }
        bm
    }
}

/// Whether bit `i` is set in a big-endian bitmap.
pub fn bitmap_bit(bm: &Vec<u8>, i: usize) -> (r: bool)
    requires
        i / 8 < bm@.len(),
    ensures
        r == bit_set(bm@, i as int),
{
    let byte = bm[i / 8];
    let sh: u8 = (7 - (i % 8)) as u8;
    ((byte >> sh) & 1) == 1
}

} // verus!
