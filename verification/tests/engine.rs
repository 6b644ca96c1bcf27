//! End-to-end scenarios: a handful of nodes driven through whole heights.

use mlm::authority::AuthorityManage;
use mlm::collector::VoteCollector;
use mlm::error::ConsensusError;
use mlm::smr::{Lock, Smr, SmrEvent, SmrTrigger};
use mlm::state::State;
use mlm::types::{Node, SignedVote, Status, Step, Vote, VoteType};

fn node(b: u8) -> Node {
    Node { address: vec![b], propose_weight: 1, vote_weight: 1 }
}

fn roster4() -> Vec<Node> {
    vec![node(0), node(1), node(2), node(3)]
}

fn sv(height: u64, round: u64, vote_type: VoteType, hash: &[u8], voter: u8) -> SignedVote {
    SignedVote {
        signature: vec![0xee, voter],
        vote: Vote { height, round, vote_type, block_hash: hash.to_vec() },
        voter: vec![voter],
    }
}

/// Runs one height to commit with the voters named, entering at round
/// `round` with the proposal `hash`. Returns each node's committed hash.
fn run_round_to_commit(
    smrs: &mut Vec<Smr>,
    auth: &AuthorityManage,
    height: u64,
    round: u64,
    hash: &[u8],
    voters: &[u8],
) -> Vec<Vec<u8>> {
    // Proposal observed: every live node prevotes the block.
    for s in smrs.iter_mut() {
        let evs = s.process(SmrTrigger::Proposal {
            height,
            round,
            block_hash: hash.to_vec(),
            lock_round: None,
        });
        assert_eq!(evs.len(), 1);
        match &evs[0] {
            SmrEvent::PrevoteVote { height: h, round: r, block_hash } => {
                assert_eq!((*h, *r), (height, round));
                assert_eq!(block_hash.as_slice(), hash);
            }
            _ => panic!("expected a prevote"),
        }
    }
    // The prevotes cross the threshold.
    let mut coll = VoteCollector::new();
    for &v in voters {
        assert!(coll.insert_vote(sv(height, round, VoteType::Prevote, hash, v)));
    }
    let (qc_hash, qc_voters) = coll
        .try_get_qc(auth, height, round, VoteType::Prevote)
        .expect("prevote quorum expected");
    assert_eq!(qc_hash.as_slice(), hash);
    assert_eq!(qc_voters.len(), voters.len());
    // The prevote certificate turns into precommits.
    for s in smrs.iter_mut() {
        let evs = s.process(SmrTrigger::PrevoteQc {
            height,
            round,
            block_hash: hash.to_vec(),
        });
        assert_eq!(evs.len(), 1);
        match &evs[0] {
            SmrEvent::PrecommitVote { block_hash, .. } => {
                assert_eq!(block_hash.as_slice(), hash)
            }
            _ => panic!("expected a precommit"),
        }
    }
    for &v in voters {
        assert!(coll.insert_vote(sv(height, round, VoteType::Precommit, hash, v)));
    }
    let (pc_hash, _) = coll
        .try_get_qc(auth, height, round, VoteType::Precommit)
        .expect("precommit quorum expected");
    assert_eq!(pc_hash.as_slice(), hash);
    // The precommit certificate commits.
    let mut committed = Vec::new();
    for s in smrs.iter_mut() {
        let evs = s.process(SmrTrigger::PrecommitQc {
            height,
            round,
            block_hash: hash.to_vec(),
        });
        assert_eq!(evs.len(), 1);
        match &evs[0] {
            SmrEvent::Commit { height: h, block_hash } => {
                assert_eq!(*h, height);
                committed.push(block_hash.clone());
            }
            _ => panic!("expected a commit"),
        }
        assert_eq!(s.step, Step::Commit);
    }
    committed
}

#[test]
fn happy_path_four_nodes_five_heights() {
    let auth = AuthorityManage::new(roster4());
    let mut smrs: Vec<Smr> = (0..4).map(|_| Smr::new(10)).collect();
    for height in 1u64..=5 {
        for s in smrs.iter_mut() {
            let evs = s.process(SmrTrigger::NewHeight { height });
            assert_eq!(evs.len(), 1);
            match &evs[0] {
                SmrEvent::NewRoundInfo { height: h, round, lock } => {
                    assert_eq!((*h, *round), (height, 0));
                    assert!(lock.is_none());
                }
                _ => panic!("expected a new round"),
            }
        }
        let hash = vec![0xb0, height as u8];
        let committed = run_round_to_commit(&mut smrs, &auth, height, 0, &hash, &[0, 1, 2, 3]);
        for c in &committed {
            assert_eq!(c, &hash);
        }
        for s in smrs.iter() {
            assert_eq!(s.round, 0);
            assert_eq!(s.height, height);
        }
    }
}

#[test]
fn one_silent_node_still_commits() {
    let auth = AuthorityManage::new(roster4());
    // Node 3 never sends; the other three run every height at round zero.
    let mut smrs: Vec<Smr> = (0..3).map(|_| Smr::new(10)).collect();
    for height in 1u64..=3 {
        for s in smrs.iter_mut() {
            s.process(SmrTrigger::NewHeight { height });
        }
        let hash = vec![0xc0, height as u8];
        let committed = run_round_to_commit(&mut smrs, &auth, height, 0, &hash, &[0, 1, 2]);
        for c in &committed {
            assert_eq!(c, &hash);
        }
        for s in smrs.iter() {
            assert_eq!(s.round, 0);
        }
    }
}

#[test]
fn proposer_stall_advances_round_and_commits() {
    let auth = AuthorityManage::new(roster4());
    let mut smrs: Vec<Smr> = (0..4).map(|_| Smr::new(10)).collect();
    let height = 3u64;
    for s in smrs.iter_mut() {
        s.process(SmrTrigger::NewHeight { height });
    }
    // The proposer of (3, 0) never proposes: the propose timer fires.
    for s in smrs.iter_mut() {
        let evs = s.process(SmrTrigger::Timeout { height, round: 0, step: Step::Propose });
        match &evs[0] {
            SmrEvent::PrevoteVote { block_hash, .. } => assert!(block_hash.is_empty()),
            _ => panic!("expected a nil prevote"),
        }
    }
    // A nil prevote certificate forms; everyone precommits nil.
    for s in smrs.iter_mut() {
        let evs = s.process(SmrTrigger::PrevoteQc { height, round: 0, block_hash: vec![] });
        match &evs[0] {
            SmrEvent::PrecommitVote { block_hash, .. } => assert!(block_hash.is_empty()),
            _ => panic!("expected a nil precommit"),
        }
    }
    // The nil precommit certificate fails the round: round one opens.
    for s in smrs.iter_mut() {
        let evs = s.process(SmrTrigger::PrecommitQc { height, round: 0, block_hash: vec![] });
        match &evs[0] {
            SmrEvent::NewRoundInfo { round, .. } => assert_eq!(*round, 1),
            _ => panic!("expected a new round"),
        }
        assert_eq!(s.round, 1);
    }
    // Under the next proposer the height commits with one hash for all.
    let hash = vec![0xd3];
    let committed = run_round_to_commit(&mut smrs, &auth, height, 1, &hash, &[0, 1, 2, 3]);
    for c in &committed {
        assert_eq!(c, &hash);
    }
}

#[test]
fn conflicting_proposals_cannot_both_commit() {
    let auth = AuthorityManage::new(roster4());
    let height = 2u64;
    // A Byzantine proposer shows block b to two nodes and block b2 to the
    // other two: neither bucket can reach a quorum.
    let b = vec![0xaa];
    let b2 = vec![0xbb];
    let mut coll = VoteCollector::new();
    assert!(coll.insert_vote(sv(height, 0, VoteType::Prevote, &b, 0)));
    assert!(coll.insert_vote(sv(height, 0, VoteType::Prevote, &b, 1)));
    assert!(coll.insert_vote(sv(height, 0, VoteType::Prevote, &b2, 2)));
    assert!(coll.insert_vote(sv(height, 0, VoteType::Prevote, &b2, 3)));
    assert!(coll.try_get_qc(&auth, height, 0, VoteType::Prevote).is_none());
    // Both blocks were seen: the split is visible to the driver.
    let hashes = coll.get_block_hashes(height, 0, VoteType::Prevote);
    assert_eq!(hashes.len(), 2);
    // Without a certificate the round can only time out and advance.
    let mut s = Smr::new(10);
    s.process(SmrTrigger::NewHeight { height });
    s.process(SmrTrigger::Proposal { height, round: 0, block_hash: b.clone(), lock_round: None });
    s.process(SmrTrigger::Timeout { height, round: 0, step: Step::Prevote });
    let evs = s.process(SmrTrigger::Timeout { height, round: 0, step: Step::Precommit });
    match &evs[0] {
        SmrEvent::NewRoundInfo { round, .. } => assert_eq!(*round, 1),
        _ => panic!("expected a new round"),
    }
    assert_eq!(s.step, Step::Propose);
}

#[test]
fn crash_restart_resumes_and_commits_same_hash() {
    let auth = AuthorityManage::new(roster4());
    let height = 5u64;
    let hash = vec![0x55];
    // Peers run the height to commit.
    let mut peers: Vec<Smr> = (0..3).map(|_| Smr::new(10)).collect();
    for s in peers.iter_mut() {
        s.process(SmrTrigger::NewHeight { height });
    }
    let committed = run_round_to_commit(&mut peers, &auth, height, 0, &hash, &[0, 1, 2]);
    // Node three crashed mid-precommit; its log said (5, 0, Precommit)
    // with a lock on the block. On restart it resumes and commits.
    let mut restored = Smr::restore(
        height,
        0,
        Step::Precommit,
        Some(Lock { round: 0, block_hash: hash.clone() }),
        10,
    );
    let evs = restored.process(SmrTrigger::PrecommitQc {
        height,
        round: 0,
        block_hash: hash.clone(),
    });
    match &evs[0] {
        SmrEvent::Commit { height: h, block_hash } => {
            assert_eq!(*h, height);
            assert_eq!(block_hash, &committed[0]);
        }
        _ => panic!("expected a commit"),
    }
    // The driver's memory comes back from the same record.
    let driver: State<Vec<u8>> = State::recover(height, 0, Step::Precommit, roster4(), None);
    assert_eq!(driver.height, height);
    assert_eq!(driver.step, Step::Precommit);
    assert!(driver.collector.votes.is_empty());
}

#[test]
fn authority_rotation_rejects_old_roster_votes() {
    // At the commit of height seven the host swaps nodes two and three
    // out for four and five.
    let mut state: State<Vec<u8>> = State::new(7, roster4());
    let new_roster = vec![node(0), node(1), node(4), node(5)];
    let accepted = state.handle_status(Status {
        height: 8,
        interval: None,
        timer_config: None,
        authority_list: new_roster,
    });
    assert!(accepted);
    assert_eq!(state.height, 8);
    // Old-roster members are rejected outright at the membership gate,
    // and carry no weight any more.
    assert_eq!(
        state.authority.check_voter(&vec![2u8]),
        Err(ConsensusError::AuthorityErr)
    );
    assert_eq!(state.authority.check_voter(&vec![4u8]), Ok(()));
    assert_eq!(state.authority.get_vote_weight(&vec![2u8]), 0);
    assert_eq!(state.authority.get_vote_weight(&vec![4u8]), 1);
    // Votes of the two replaced nodes cannot make a quorum with one
    // remaining member: their weight is zero under the new roster.
    let hash = vec![0x88];
    let mut coll = VoteCollector::new();
    assert!(coll.insert_vote(sv(8, 0, VoteType::Prevote, &hash, 2)));
    assert!(coll.insert_vote(sv(8, 0, VoteType::Prevote, &hash, 3)));
    assert!(coll.insert_vote(sv(8, 0, VoteType::Prevote, &hash, 0)));
    assert!(coll.try_get_qc(&state.authority, 8, 0, VoteType::Prevote).is_none());
    // A bitmap naming the replaced seats still fails the threshold.
    let bitmap = vec![0b0011_0000u8];
    assert_eq!(
        state.authority.is_above_threshold(&bitmap),
        Err(ConsensusError::ThresholdBelow)
    );
    // A status that does not advance the height is refused.
    let refused = state.handle_status(Status {
        height: 8,
        interval: None,
        timer_config: None,
        authority_list: roster4(),
    });
    assert!(!refused);
    assert_eq!(state.height, 8);
}
