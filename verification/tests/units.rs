//! Component-level checks: schedule arithmetic, threshold arithmetic,
//! voter lists, proposer rotation, tallies, the verify-stage judgement,
//! and the cancellation filter.

use mlm::authority::AuthorityManage;
use mlm::collector::VoteCollector;
use mlm::error::ConsensusError;
use mlm::smr::{Smr, SmrEvent, SmrTrigger};
use mlm::state::{leap_ahead_ready, State};
use mlm::timer::{TimerFilter, TimerToken};
use mlm::timer_config::TimerConfig;
use mlm::types::{
    AggregatedSignature, AggregatedVote, Choke, DurationConfig, MlmMsg, Node, Proposal,
    SignedChoke, SignedProposal, SignedVote, Status, Step, Vote, VoteType,
};
use mlm::verify::{admits, get_voters, signer_of};

fn node(b: u8, pw: u32, vw: u32) -> Node {
    Node { address: vec![b], propose_weight: pw, vote_weight: vw }
}

fn sv(height: u64, round: u64, vote_type: VoteType, hash: &[u8], voter: u8) -> SignedVote {
    SignedVote {
        signature: vec![0xee, voter],
        vote: Vote { height, round, vote_type, block_hash: hash.to_vec() },
        voter: vec![voter],
    }
}

#[test]
fn timer_config_default_schedule() {
    let config = TimerConfig::new(3000);
    let nri = SmrEvent::NewRoundInfo { height: 1, round: 0, lock: None };
    let pv = SmrEvent::PrevoteVote { height: 1, round: 0, block_hash: vec![] };
    let pc = SmrEvent::PrecommitVote { height: 1, round: 0, block_hash: vec![] };
    let brake = SmrEvent::Brake { height: 1, round: 0 };
    let commit = SmrEvent::Commit { height: 1, block_hash: vec![] };
    assert_eq!(config.get_timeout(nri), Ok(7200));
    assert_eq!(config.get_timeout(pv), Ok(3000));
    assert_eq!(config.get_timeout(pc), Ok(1500));
    assert_eq!(config.get_timeout(brake), Ok(900));
    assert_eq!(config.get_timeout(commit), Err(ConsensusError::TimerErr));
}

#[test]
fn timer_config_update_and_interval() {
    let mut config = TimerConfig::new(1000);
    config.update(DurationConfig::new(30, 20, 10, 5));
    let nri = SmrEvent::NewRoundInfo { height: 1, round: 0, lock: None };
    let pv = SmrEvent::PrevoteVote { height: 1, round: 0, block_hash: vec![] };
    let pc = SmrEvent::PrecommitVote { height: 1, round: 0, block_hash: vec![] };
    let brake = SmrEvent::Brake { height: 1, round: 0 };
    assert_eq!(config.get_timeout(nri), Ok(3000));
    assert_eq!(config.get_timeout(pv), Ok(2000));
    assert_eq!(config.get_timeout(pc), Ok(1000));
    assert_eq!(config.get_timeout(brake), Ok(500));
    config.set_interval(2000);
    let pv2 = SmrEvent::PrevoteVote { height: 1, round: 0, block_hash: vec![] };
    assert_eq!(config.get_timeout(pv2), Ok(4000));
}

#[test]
fn threshold_is_strict_two_thirds() {
    let auth = AuthorityManage::new(vec![
        node(0, 1, 1),
        node(1, 1, 1),
        node(2, 1, 1),
        node(3, 1, 1),
    ]);
    // Three of four: 9 > 8.
    assert_eq!(auth.is_above_threshold(&vec![0b1110_0000u8]), Ok(()));
    // Two of four: 6 <= 8.
    assert_eq!(
        auth.is_above_threshold(&vec![0b1100_0000u8]),
        Err(ConsensusError::ThresholdBelow)
    );
    // A bitmap of the wrong length does not fit the roster.
    assert_eq!(
        auth.is_above_threshold(&vec![0u8, 0u8]),
        Err(ConsensusError::AuthorityErr)
    );
}

#[test]
fn voters_follow_bitmap_order_and_stray_bits_are_refused() {
    let auth = AuthorityManage::new(vec![
        node(10, 1, 1),
        node(11, 1, 1),
        node(12, 1, 1),
        node(13, 1, 1),
    ]);
    let voters = auth.get_voters(&vec![0b1010_0000u8]).unwrap();
    assert_eq!(voters, vec![vec![10u8], vec![12u8]]);
    // Bit four lies outside the roster.
    assert_eq!(
        auth.get_voters(&vec![0b1010_1000u8]),
        Err(ConsensusError::AuthorityErr)
    );
}

#[test]
fn bitmap_round_trip_through_voters() {
    let auth = AuthorityManage::new(vec![
        node(10, 1, 1),
        node(11, 1, 1),
        node(12, 1, 1),
        node(13, 1, 1),
    ]);
    let voters = vec![vec![10u8], vec![12u8]];
    let bm = auth.make_bitmap(&voters);
    assert_eq!(bm, vec![0b1010_0000u8]);
    assert_eq!(auth.get_voters(&bm).unwrap(), voters);
    // A quorum's bitmap built from three voters passes the threshold.
    let quorum = auth.make_bitmap(&vec![vec![10u8], vec![11u8], vec![13u8]]);
    assert_eq!(quorum, vec![0b1101_0000u8]);
    assert_eq!(auth.is_above_threshold(&quorum), Ok(()));
    // An outsider in the list sets no bit.
    let none = auth.make_bitmap(&vec![vec![99u8]]);
    assert_eq!(none, vec![0u8]);
}

#[test]
fn proposer_rotates_by_propose_weight() {
    let auth = AuthorityManage::new(vec![node(0, 1, 1), node(1, 2, 1), node(2, 1, 1)]);
    // Cumulative propose weights: [0,1), [1,3), [3,4) over seed mod 4.
    assert_eq!(auth.get_proposer(0, 0).unwrap(), vec![0u8]);
    assert_eq!(auth.get_proposer(1, 0).unwrap(), vec![1u8]);
    assert_eq!(auth.get_proposer(1, 1).unwrap(), vec![1u8]);
    assert_eq!(auth.get_proposer(3, 0).unwrap(), vec![2u8]);
    assert_eq!(auth.get_proposer(4, 0).unwrap(), vec![0u8]);
    // An empty roster has no proposer.
    let empty = AuthorityManage::new(vec![]);
    assert_eq!(empty.get_proposer(1, 0), Err(ConsensusError::AuthorityErr));
}

#[test]
fn vote_weight_is_zero_for_non_members() {
    let auth = AuthorityManage::new(vec![node(7, 1, 5)]);
    assert_eq!(auth.get_vote_weight(&vec![7u8]), 5);
    assert_eq!(auth.get_vote_weight(&vec![8u8]), 0);
}

#[test]
fn duplicate_votes_are_ignored_even_when_equivocating() {
    let mut coll = VoteCollector::new();
    let hash_a = vec![0xaa];
    let hash_b = vec![0xbb];
    assert!(coll.insert_vote(sv(1, 0, VoteType::Prevote, &hash_a, 0)));
    // The same voter, same tally, same block: ignored.
    assert!(!coll.insert_vote(sv(1, 0, VoteType::Prevote, &hash_a, 0)));
    // The same voter, same tally, another block: still ignored.
    assert!(!coll.insert_vote(sv(1, 0, VoteType::Prevote, &hash_b, 0)));
    // Another tally of the same voter is fresh.
    assert!(coll.insert_vote(sv(1, 0, VoteType::Precommit, &hash_a, 0)));
    assert!(coll.insert_vote(sv(1, 1, VoteType::Prevote, &hash_a, 0)));
}

#[test]
fn quorum_needs_strict_supermajority_of_weight() {
    let auth = AuthorityManage::new(vec![
        node(0, 1, 1),
        node(1, 1, 1),
        node(2, 1, 1),
        node(3, 1, 1),
    ]);
    let hash = vec![0x11];
    let mut coll = VoteCollector::new();
    assert!(coll.insert_vote(sv(4, 2, VoteType::Prevote, &hash, 0)));
    assert!(coll.insert_vote(sv(4, 2, VoteType::Prevote, &hash, 1)));
    assert!(coll.try_get_qc(&auth, 4, 2, VoteType::Prevote).is_none());
    assert!(coll.insert_vote(sv(4, 2, VoteType::Prevote, &hash, 2)));
    let (qc_hash, voters) = coll.try_get_qc(&auth, 4, 2, VoteType::Prevote).unwrap();
    assert_eq!(qc_hash, hash);
    assert_eq!(voters, vec![vec![0u8], vec![1u8], vec![2u8]]);
    // A vote of an outsider carries no weight.
    let mut coll2 = VoteCollector::new();
    for voter in [0u8, 1, 9] {
        assert!(coll2.insert_vote(sv(4, 2, VoteType::Prevote, &hash, voter)));
    }
    assert!(coll2.try_get_qc(&auth, 4, 2, VoteType::Prevote).is_none());
}

#[test]
fn flush_drops_only_lower_heights() {
    let mut coll = VoteCollector::new();
    let hash = vec![0x22];
    assert!(coll.insert_vote(sv(3, 0, VoteType::Prevote, &hash, 0)));
    assert!(coll.insert_vote(sv(4, 0, VoteType::Prevote, &hash, 0)));
    assert!(coll.insert_vote(sv(5, 0, VoteType::Prevote, &hash, 0)));
    coll.flush(4);
    assert_eq!(coll.votes.len(), 2);
    assert!(coll.votes.iter().all(|v| v.vote.height >= 4));
    // The flushed voter may vote again at the old height without effect
    // on the kept tallies.
    assert!(coll.insert_vote(sv(3, 0, VoteType::Prevote, &hash, 0)));
}

#[test]
fn verify_stage_judgement() {
    let proposal = Proposal::<Vec<u8>> {
        height: 1,
        round: 0,
        content: vec![1, 2, 3],
        block_hash: vec![0x33],
        lock: None,
        proposer: vec![9u8],
    };
    let msg = MlmMsg::SignedProposal(SignedProposal { signature: vec![0xff], proposal });
    assert_eq!(signer_of(&msg), Some(vec![9u8]));
    assert!(admits(&msg, true, false));
    assert!(!admits(&msg, false, true));
    let vote_msg = MlmMsg::<Vec<u8>>::SignedVote(sv(1, 0, VoteType::Prevote, &[0x44], 2));
    assert_eq!(signer_of(&vote_msg), Some(vec![2u8]));
    assert!(admits(&vote_msg, true, false));
    assert!(!admits(&vote_msg, false, true));
    let choke_msg = MlmMsg::<Vec<u8>>::SignedChoke(SignedChoke {
        signature: vec![0xcc],
        choke: Choke { height: 1, round: 0 },
        address: vec![5u8],
    });
    assert_eq!(signer_of(&choke_msg), Some(vec![5u8]));
    assert!(admits(&choke_msg, true, true));
    let qc_msg = MlmMsg::<Vec<u8>>::AggregatedVote(AggregatedVote {
        signature: AggregatedSignature { signature: vec![], address_bitmap: vec![0b1110_0000] },
        vote_type: VoteType::Prevote,
        height: 1,
        round: 0,
        block_hash: vec![0x55],
    });
    assert_eq!(signer_of(&qc_msg), None);
    assert!(admits(&qc_msg, false, true));
    assert!(!admits(&qc_msg, true, false));
    let status_msg = MlmMsg::<Vec<u8>>::RichStatus(Status {
        height: 2,
        interval: None,
        timer_config: None,
        authority_list: vec![],
    });
    assert!(!admits(&status_msg, true, true));
}

#[test]
fn qc_voters_resolution() {
    let auth = AuthorityManage::new(vec![
        node(0, 1, 1),
        node(1, 1, 1),
        node(2, 1, 1),
        node(3, 1, 1),
    ]);
    let qc = |bitmap: Vec<u8>| AggregatedVote {
        signature: AggregatedSignature { signature: vec![], address_bitmap: bitmap },
        vote_type: VoteType::Precommit,
        height: 1,
        round: 0,
        block_hash: vec![0x66],
    };
    assert_eq!(
        get_voters(&auth, &qc(vec![0b1110_0000])).unwrap(),
        vec![vec![0u8], vec![1u8], vec![2u8]]
    );
    assert_eq!(
        get_voters(&auth, &qc(vec![0b1100_0000])),
        Err(ConsensusError::ThresholdBelow)
    );
    assert_eq!(
        get_voters(&auth, &qc(vec![0b1110_0000, 0])),
        Err(ConsensusError::AuthorityErr)
    );
    // Above the threshold but with a bit outside the roster.
    assert_eq!(
        get_voters(&auth, &qc(vec![0b1110_1000])),
        Err(ConsensusError::AuthorityErr)
    );
}

#[test]
fn aggregated_vote_to_vote_is_canonical() {
    let qc = AggregatedVote {
        signature: AggregatedSignature { signature: vec![1], address_bitmap: vec![0b1110_0000] },
        vote_type: VoteType::Prevote,
        height: 9,
        round: 2,
        block_hash: vec![0x77],
    };
    let vote = qc.to_vote();
    assert_eq!(vote.height, 9);
    assert_eq!(vote.round, 2);
    assert_eq!(vote.vote_type, VoteType::Prevote);
    assert_eq!(vote.block_hash, vec![0x77]);
}

#[test]
fn cancelled_timeouts_never_fire() {
    let mut filter = TimerFilter::new(TimerToken { height: 4, round: 1, step: Step::Propose });
    let armed = TimerToken { height: 4, round: 1, step: Step::Propose };
    assert!(filter.should_fire(&armed));
    // The prevote step supersedes the propose step of the same round.
    filter.advance(TimerToken { height: 4, round: 1, step: Step::Prevote });
    assert!(!filter.should_fire(&armed));
    // However far the filter advances, the cancelled token stays dead.
    filter.advance(TimerToken { height: 4, round: 2, step: Step::Propose });
    filter.advance(TimerToken { height: 5, round: 0, step: Step::Propose });
    assert!(!filter.should_fire(&armed));
    // An older step never rewinds the filter.
    filter.advance(TimerToken { height: 4, round: 0, step: Step::Propose });
    assert!(!filter.should_fire(&armed));
}

#[test]
fn stale_smr_timeouts_are_dropped() {
    let mut s = Smr::new(10);
    s.process(SmrTrigger::NewHeight { height: 2 });
    s.process(SmrTrigger::Proposal {
        height: 2,
        round: 0,
        block_hash: vec![0x99],
        lock_round: None,
    });
    assert_eq!(s.step, Step::Prevote);
    // A propose timeout of the step already left does nothing.
    let evs = s.process(SmrTrigger::Timeout { height: 2, round: 0, step: Step::Propose });
    assert!(evs.is_empty());
    assert_eq!(s.step, Step::Prevote);
    // A timeout of a lower height does nothing.
    let evs = s.process(SmrTrigger::Timeout { height: 1, round: 0, step: Step::Prevote });
    assert!(evs.is_empty());
}

#[test]
fn lock_rules_across_rounds() {
    let mut s = Smr::new(10);
    let b = vec![0xab];
    let b2 = vec![0xcd];
    s.process(SmrTrigger::NewHeight { height: 1 });
    s.process(SmrTrigger::Proposal { height: 1, round: 0, block_hash: b.clone(), lock_round: None });
    // A prevote certificate locks the block.
    s.process(SmrTrigger::PrevoteQc { height: 1, round: 0, block_hash: b.clone() });
    assert_eq!(s.lock.as_ref().unwrap().block_hash, b);
    // The round fails; the lock is carried into round one.
    s.process(SmrTrigger::PrecommitQc { height: 1, round: 0, block_hash: vec![] });
    assert_eq!(s.round, 1);
    assert_eq!(s.lock.as_ref().unwrap().block_hash, b);
    // Locked, the node prevotes its lock against a different proposal
    // without a proof of lock.
    let evs = s.process(SmrTrigger::Proposal {
        height: 1,
        round: 1,
        block_hash: b2.clone(),
        lock_round: None,
    });
    match &evs[0] {
        SmrEvent::PrevoteVote { block_hash, .. } => assert_eq!(block_hash, &b),
        _ => panic!("expected a prevote"),
    }
    assert_eq!(s.lock.as_ref().unwrap().block_hash, b);
    // Another failed round; then a proposal carrying a proof of lock from
    // a later round unlocks the node.
    s.process(SmrTrigger::PrevoteQc { height: 1, round: 1, block_hash: vec![] });
    s.process(SmrTrigger::PrecommitQc { height: 1, round: 1, block_hash: vec![] });
    assert_eq!(s.round, 2);
    let evs = s.process(SmrTrigger::Proposal {
        height: 1,
        round: 2,
        block_hash: b2.clone(),
        lock_round: Some(1),
    });
    match &evs[0] {
        SmrEvent::PrevoteVote { block_hash, .. } => assert_eq!(block_hash, &b2),
        _ => panic!("expected a prevote"),
    }
    assert!(s.lock.is_none());
}

#[test]
fn choke_certificate_forces_round_advance() {
    let mut s = Smr::new(10);
    s.process(SmrTrigger::NewHeight { height: 6 });
    s.process(SmrTrigger::Proposal {
        height: 6,
        round: 0,
        block_hash: vec![0x61],
        lock_round: None,
    });
    let evs = s.process(SmrTrigger::ChokeQc { height: 6, round: 0 });
    match &evs[0] {
        SmrEvent::NewRoundInfo { round, .. } => assert_eq!(*round, 1),
        _ => panic!("expected a new round"),
    }
    assert_eq!(s.round, 1);
    assert_eq!(s.step, Step::Propose);
}

#[test]
fn brake_after_consecutive_failed_rounds() {
    let mut s = Smr::new(2);
    s.process(SmrTrigger::NewHeight { height: 1 });
    let evs = s.process(SmrTrigger::PrecommitQc { height: 1, round: 0, block_hash: vec![] });
    assert!(matches!(evs[0], SmrEvent::NewRoundInfo { .. }));
    let evs = s.process(SmrTrigger::PrecommitQc { height: 1, round: 1, block_hash: vec![] });
    match &evs[0] {
        SmrEvent::Brake { height, round } => assert_eq!((*height, *round), (1, 2)),
        _ => panic!("expected a brake"),
    }
    assert_eq!(s.step, Step::Brake);
    // The brake timer re-emits the brake.
    let evs = s.process(SmrTrigger::Timeout { height: 1, round: 2, step: Step::Brake });
    assert!(matches!(evs[0], SmrEvent::Brake { .. }));
    // A certificate resumes the normal flow.
    let evs = s.process(SmrTrigger::PrevoteQc { height: 1, round: 2, block_hash: vec![0x10] });
    assert!(matches!(evs[0], SmrEvent::PrecommitVote { .. }));
    assert_eq!(s.step, Step::Precommit);
}

#[test]
fn choke_tally_counts_each_sender_once() {
    let mut coll = VoteCollector::new();
    let sc = |voter: u8| SignedChoke {
        signature: vec![voter],
        choke: Choke { height: 2, round: 1 },
        address: vec![voter],
    };
    assert!(coll.insert_choke(sc(0)));
    assert!(!coll.insert_choke(sc(0)));
    assert!(coll.insert_choke(sc(1)));
    assert_eq!(coll.chokes.len(), 2);
    // The same sender at another round is fresh.
    let later = SignedChoke {
        signature: vec![0],
        choke: Choke { height: 2, round: 2 },
        address: vec![0u8],
    };
    assert!(coll.insert_choke(later));
}

#[test]
fn choke_quorum_needs_strict_supermajority() {
    let auth = AuthorityManage::new(vec![
        node(0, 1, 1),
        node(1, 1, 1),
        node(2, 1, 1),
        node(3, 1, 1),
    ]);
    let sc = |voter: u8| SignedChoke {
        signature: vec![voter],
        choke: Choke { height: 2, round: 1 },
        address: vec![voter],
    };
    let mut coll = VoteCollector::new();
    assert!(coll.insert_choke(sc(0)));
    assert!(coll.insert_choke(sc(1)));
    // Two of four do not cross; a duplicate changes nothing.
    assert!(coll.try_get_choke_qc(&auth, 2, 1).is_none());
    assert!(!coll.insert_choke(sc(1)));
    assert!(coll.try_get_choke_qc(&auth, 2, 1).is_none());
    // The third sender crosses; the senders come back in arrival order.
    assert!(coll.insert_choke(sc(2)));
    let senders = coll.try_get_choke_qc(&auth, 2, 1).unwrap();
    assert_eq!(senders, vec![vec![0u8], vec![1u8], vec![2u8]]);
    // Another round's tally is untouched.
    assert!(coll.try_get_choke_qc(&auth, 2, 0).is_none());
    // An outsider's chokes carry no weight.
    let mut outsiders = VoteCollector::new();
    for voter in [7u8, 8, 9] {
        let choke = SignedChoke {
            signature: vec![voter],
            choke: Choke { height: 2, round: 1 },
            address: vec![voter],
        };
        assert!(outsiders.insert_choke(choke));
    }
    assert!(outsiders.try_get_choke_qc(&auth, 2, 1).is_none());
}

#[test]
fn non_roster_voters_are_rejected() {
    let auth = AuthorityManage::new(vec![node(0, 1, 1), node(1, 1, 1)]);
    assert_eq!(auth.check_voter(&vec![0u8]), Ok(()));
    assert_eq!(auth.check_voter(&vec![1u8]), Ok(()));
    assert_eq!(auth.check_voter(&vec![2u8]), Err(ConsensusError::AuthorityErr));
}

#[test]
fn leap_ahead_needs_a_third_of_the_roster() {
    assert!(!leap_ahead_ready(1, 4));
    assert!(leap_ahead_ready(2, 4));
    assert!(leap_ahead_ready(1, 3));
    assert!(!leap_ahead_ready(0, 1));
    assert!(!leap_ahead_ready(5, 0));
}

#[test]
fn driver_keeps_first_proposal_per_round() {
    let mut state: State<Vec<u8>> = State::new(1, vec![node(0, 1, 1)]);
    let sp = |round: u64, content: u8| SignedProposal {
        signature: vec![content],
        proposal: Proposal {
            height: 1,
            round,
            content: vec![content],
            block_hash: vec![content],
            lock: None,
            proposer: vec![0u8],
        },
    };
    assert!(state.insert_proposal(sp(0, 1)));
    assert!(!state.insert_proposal(sp(0, 2)));
    assert!(state.insert_proposal(sp(1, 3)));
    let idx = state.find_proposal(1, 0).unwrap();
    assert_eq!(state.proposals[idx].proposal.content, vec![1u8]);
    assert!(state.find_proposal(2, 0).is_none());
}

#[test]
fn commit_step_ignores_everything_but_the_next_height() {
    let mut s = Smr::new(10);
    s.process(SmrTrigger::NewHeight { height: 1 });
    s.process(SmrTrigger::Proposal { height: 1, round: 0, block_hash: vec![1], lock_round: None });
    s.process(SmrTrigger::PrevoteQc { height: 1, round: 0, block_hash: vec![1] });
    let evs = s.process(SmrTrigger::PrecommitQc { height: 1, round: 0, block_hash: vec![1] });
    assert!(matches!(evs[0], SmrEvent::Commit { .. }));
    // Committed: certificates and chokes of the height are spent.
    assert!(s.process(SmrTrigger::PrecommitQc { height: 1, round: 0, block_hash: vec![2] }).is_empty());
    assert!(s.process(SmrTrigger::ChokeQc { height: 1, round: 0 }).is_empty());
    // A lower or equal status never rewinds the height.
    assert!(s.process(SmrTrigger::NewHeight { height: 1 }).is_empty());
    let evs = s.process(SmrTrigger::NewHeight { height: 2 });
    assert!(matches!(evs[0], SmrEvent::NewRoundInfo { .. }));
    assert_eq!(s.height, 2);
}
