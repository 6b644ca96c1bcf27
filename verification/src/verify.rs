//! The judgement of the signature-verification stage.
//!
//! Inbound messages are checked off the hot path: the host hashes the
//! canonical encoding of each payload and checks signatures with its
//! crypto; this module holds the decisions — whose signature a message
//! must carry, how a quorum certificate's voters are resolved, and whether
//! a message is forwarded once the checks came back.

use vstd::prelude::*;

use crate::authority::{addresses_view, bitmap_fits, bitmap_len, total_weight, voters_of, weight_sum, AuthorityManage};
use crate::error::{ConsensusError, ConsensusResult};
use crate::types::{Address, AggregatedVote, MlmMsg};

verus! {

/// Resolve a quorum certificate's voters: its bitmap must fit the current
/// roster and carry a strict super-majority of the vote weight.
pub fn get_voters(authority: &AuthorityManage, qc: &AggregatedVote) -> (r: ConsensusResult<
    Vec<Address>,
>)
    ensures
        qc.signature.address_bitmap@.len() != bitmap_len(authority.roster().len() as int) ==> r
            == Err::<Vec<Address>, ConsensusError>(ConsensusError::AuthorityErr),
        (qc.signature.address_bitmap@.len() == bitmap_len(authority.roster().len() as int) && 3
            * weight_sum(authority.roster(), qc.signature.address_bitmap@) <= 2 * total_weight(
            authority.roster(),
        )) ==> r == Err::<Vec<Address>, ConsensusError>(ConsensusError::ThresholdBelow),
        (3 * weight_sum(authority.roster(), qc.signature.address_bitmap@) > 2 * total_weight(
            authority.roster(),
        ) && !bitmap_fits(qc.signature.address_bitmap@, authority.roster().len() as int)) ==> r
            == Err::<Vec<Address>, ConsensusError>(ConsensusError::AuthorityErr),
        r is Ok <==> (bitmap_fits(qc.signature.address_bitmap@, authority.roster().len() as int)
            && 3 * weight_sum(authority.roster(), qc.signature.address_bitmap@) > 2 * total_weight(
            authority.roster(),
        )),
        r matches Ok(v) ==> addresses_view(v@) == voters_of(
            authority.roster(),
            qc.signature.address_bitmap@,
        ),
        r matches Ok(v) ==> (authority.wf() ==> forall|p: int, q: int|
            0 <= p < q < v@.len() ==> #[trigger] addresses_view(v@)[p] != #[trigger] addresses_view(
                v@,
            )[q]),
{
    match authority.is_above_threshold(&qc.signature.address_bitmap) {
        Ok(()) => authority.get_voters(&qc.signature.address_bitmap),
        Err(e) => Err(e),
    }
}

/// Whom a message must be signed by: the proposer of a proposal, the voter
/// of a vote, the sender of a choke. A bare certificate or a status
/// carries no single signer.
pub open spec fn spec_signer_of<T>(msg: MlmMsg<T>) -> Option<Seq<u8>> {
    match msg {
        MlmMsg::SignedProposal(sp) => Some(sp.proposal.proposer@),
        MlmMsg::SignedVote(sv) => Some(sv.voter@),
        MlmMsg::SignedChoke(sc) => Some(sc.address@),
        _ => None,
    }
}

/// Whom a message must be signed by.
pub fn signer_of<T>(msg: &MlmMsg<T>) -> (r: Option<Address>)
    ensures
        match (r, spec_signer_of(*msg)) {
            (Some(a), Some(s)) => a@ == s,
            (None, None) => true,
            _ => false,
        },
{
    match msg {
        MlmMsg::SignedProposal(sp) => Some(crate::types::copy_bytes(&sp.proposal.proposer)),
        MlmMsg::SignedVote(sv) => Some(crate::types::copy_bytes(&sv.voter)),
        MlmMsg::SignedChoke(sc) => Some(crate::types::copy_bytes(&sc.address)),
        _ => None,
    }
}

/// Whether the stage forwards a message, given that its signature check
/// came back `sig_ok` and its certificate check came back `qc_ok`.
pub open spec fn spec_admits<T>(msg: MlmMsg<T>, sig_ok: bool, qc_ok: bool) -> bool {
    match msg {
        // A proposal needs its proposer's signature, and its proof of
        // lock, if it carries one, must be a sound certificate.
        MlmMsg::SignedProposal(sp) => sig_ok && (sp.proposal.lock is Some ==> qc_ok),
        // A vote or a choke needs its sender's signature.
        MlmMsg::SignedVote(_) => sig_ok,
        MlmMsg::SignedChoke(_) => sig_ok,
        // A bare certificate needs only the aggregate check.
        MlmMsg::AggregatedVote(_) => qc_ok,
        // Nothing else passes through the verification stage.
        _ => false,
    }
}

/// Whether the stage forwards a message, given the outcomes of its checks.
pub fn admits<T>(msg: &MlmMsg<T>, sig_ok: bool, qc_ok: bool) -> (r: bool)
    ensures
        r == spec_admits(*msg, sig_ok, qc_ok),
{
    match msg {
        MlmMsg::SignedProposal(sp) => sig_ok && (match &sp.proposal.lock {
            Some(_) => qc_ok,
            None => true,
        }),
        MlmMsg::SignedVote(_) => sig_ok,
        MlmMsg::SignedChoke(_) => sig_ok,
        MlmMsg::AggregatedVote(_) => qc_ok,
        _ => false,
    }
}

} // verus!
