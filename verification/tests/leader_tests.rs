//! The leader tasks: proposing, parent resolution failures, next-leader
//! vote collection and the timeout fallback.

use sequencing_core::certificate::{AssembledSignature, DACertificate, QuorumCertificate};
use sequencing_core::commitment::{fake_commitment, Commitment};
use sequencing_core::consensus::{Consensus, ViewInner};
use sequencing_core::da::{
    DAConsensusLeader, DALeader, DANextLeader, LeaderError, NextLeaderStep,
    ProcessedConsensusMessage, Vote,
};
use sequencing_core::data::{Block, Leaf, State, Transaction};
use sequencing_core::election::StaticCommittee;
use sequencing_core::exchange::{CommitteeExchange, QuorumExchange};
use sequencing_core::message::{CommitteeConsensusMessage, GeneralConsensusMessage, QuorumVote};
use sequencing_core::signature::{PrivateKey, PublicKey, StakeTableEntry};
use sequencing_core::Either;

fn entries(n: u64) -> Vec<StakeTableEntry> {
    (0..n).map(|i| StakeTableEntry { key_id: i, stake: 1 }).collect()
}

fn keys(n: u64) -> Vec<PublicKey> {
    (0..n).map(|i| PublicKey { id: i }).collect()
}

fn committee_exchange(own: u64) -> CommitteeExchange {
    CommitteeExchange::create(
        entries(4),
        keys(4),
        StaticCommittee::default_election_config(4),
        PublicKey { id: own },
        StakeTableEntry { key_id: own, stake: 1 },
        PrivateKey { id: own },
    )
}

fn quorum_exchange(own: u64) -> QuorumExchange {
    QuorumExchange::create(
        entries(4),
        keys(4),
        StaticCommittee::default_election_config(4),
        PublicKey { id: own },
        StakeTableEntry { key_id: own, stake: 1 },
        PrivateKey { id: own },
    )
}

fn yes_vote_message(voter: u64, leaf_commitment: Commitment, view: u64) -> ProcessedConsensusMessage {
    let exchange = quorum_exchange(voter);
    let token = exchange.make_vote_token(view).unwrap().unwrap();
    let message = exchange.create_yes_message(
        fake_commitment(),
        leaf_commitment,
        view,
        token,
    );
    let vote = match message {
        GeneralConsensusMessage::Vote(QuorumVote::Yes(v)) => v,
        _ => panic!("expected a yes vote"),
    };
    let sender = vote.signature.0.clone();
    ProcessedConsensusMessage::Vote(Vote::Yes(vote), sender)
}

fn timeout_vote_message(voter: u64, justify_qc: QuorumCertificate, view: u64) -> ProcessedConsensusMessage {
    let exchange = quorum_exchange(voter);
    let token = exchange.make_vote_token(view).unwrap().unwrap();
    let message = exchange.create_timeout_message(justify_qc, view, token);
    let vote = match message {
        GeneralConsensusMessage::Vote(QuorumVote::Timeout(v)) => v,
        _ => panic!("expected a timeout vote"),
    };
    let sender = vote.signature.0.clone();
    ProcessedConsensusMessage::Vote(Vote::Timeout(vote), sender)
}

#[test]
fn da_leader_proposes_the_unclaimed_transactions() {
    let mut consensus = Consensus::genesis();
    consensus.add_transaction(Transaction { payload: vec![1] });
    consensus.add_transaction(Transaction { payload: vec![2] });
    let leader = DALeader {
        id: 0,
        consensus,
        high_qc: QuorumCertificate::genesis(),
        cur_view: 1,
        exchange: committee_exchange(0),
        min_transactions: 2,
    };
    let parent = leader.parent_leaf().expect("genesis resolves");
    let candidates = leader.unclaimed_transactions(&parent);
    assert_eq!(candidates.len(), 2);
    assert!(leader.enough_transactions(candidates.len()));
    let (message, block) = leader.prepare_proposal(&candidates).expect("the proposal builds");
    assert_eq!(block.transactions.len(), 2);
    match message {
        CommitteeConsensusMessage::DAProposal(p, _signature) => {
            assert_eq!(p.view_number, 1);
            assert_eq!(p.deltas.commit().bytes, block.commit().bytes);
        }
        _ => panic!("the leader broadcasts a DA proposal"),
    }
}

#[test]
fn pack_block_drops_duplicates_silently() {
    let leader = DALeader {
        id: 0,
        consensus: Consensus::genesis(),
        high_qc: QuorumCertificate::genesis(),
        cur_view: 1,
        exchange: committee_exchange(0),
        min_transactions: 0,
    };
    let txns = vec![
        Transaction { payload: vec![1] },
        Transaction { payload: vec![1] },
        Transaction { payload: vec![2] },
    ];
    let block = leader.pack_block(&State::genesis(), &txns);
    assert_eq!(block.transactions.len(), 2);
}

#[test]
fn missing_parent_aborts_the_view() {
    // The high certificate points at a view the map never settled.
    let leader = DALeader {
        id: 0,
        consensus: Consensus::genesis(),
        high_qc: QuorumCertificate {
            leaf_commitment: Commitment { bytes: vec![1] },
            view_number: 9,
            signatures: AssembledSignature::Genesis(),
            is_genesis: false,
        },
        cur_view: 10,
        exchange: committee_exchange(0),
        min_transactions: 0,
    };
    assert_eq!(leader.prepare_proposal(&Vec::new()).map(|_| ()), Err(LeaderError::ParentMissing));
}

#[test]
fn failed_parent_view_aborts_the_view() {
    let mut consensus = Consensus::genesis();
    consensus.insert_view(1, ViewInner::Failed);
    let leader = DALeader {
        id: 0,
        consensus,
        high_qc: QuorumCertificate {
            leaf_commitment: Commitment { bytes: vec![1] },
            view_number: 1,
            signatures: AssembledSignature::Genesis(),
            is_genesis: false,
        },
        cur_view: 2,
        exchange: committee_exchange(0),
        min_transactions: 0,
    };
    assert_eq!(leader.prepare_proposal(&Vec::new()).map(|_| ()), Err(LeaderError::ParentMissing));
}

#[test]
fn sealed_parent_state_aborts_the_view() {
    // The parent stores only a state commitment: NoParentState, nothing
    // is proposed, and the view is left to time out.
    let mut consensus = Consensus::genesis();
    let sealed = Leaf {
        view_number: 1,
        height: 1,
        justify_qc: QuorumCertificate::genesis(),
        parent_commitment: fake_commitment(),
        deltas: Block::new(),
        state: Either::Right(Commitment { bytes: vec![0xAA] }),
        rejected: Vec::new(),
        timestamp: 0,
        proposer_id: PublicKey { id: 0 }.to_bytes(),
    };
    let commitment = sealed.commit();
    consensus.save_leaf(sealed);
    consensus.insert_view(1, ViewInner::Leaf { leaf: commitment.clone() });
    let high_qc = QuorumCertificate {
        leaf_commitment: commitment,
        view_number: 1,
        signatures: AssembledSignature::Genesis(),
        is_genesis: false,
    };
    let leader = DALeader {
        id: 0,
        consensus: Consensus {
            state_map: consensus.state_map.clone(),
            saved_leaves: consensus.saved_leaves.iter().map(|l| l.clone()).collect(),
            transactions: Vec::new(),
            high_qc: QuorumCertificate::genesis(),
        },
        high_qc: high_qc.clone(),
        cur_view: 2,
        exchange: committee_exchange(0),
        min_transactions: 0,
    };
    assert_eq!(leader.prepare_proposal(&Vec::new()).map(|_| ()), Err(LeaderError::NoParentState));
    // The consensus leader hits the same wall.
    let consensus_leader = DAConsensusLeader {
        id: 0,
        consensus: leader.consensus,
        high_qc,
        cur_view: 2,
        cert: DACertificate {
            view_number: 2,
            block_commitment: Block::new().commit(),
            signatures: AssembledSignature::Genesis(),
        },
        block: Block::new(),
        exchange: quorum_exchange(0),
    };
    assert_eq!(
        consensus_leader.propose(123).map(|_| ()),
        Err(LeaderError::NoParentState)
    );
}

#[test]
fn consensus_leader_builds_a_justified_leaf() {
    // The proposed leaf chains to its parent: height parent+1, parent
    // commitment from the resolved parent, justified by the high
    // certificate.
    let consensus = Consensus::genesis();
    let genesis_commit = consensus.saved_leaves[0].commit();
    let block = Block::new()
        .add_transaction_raw(&Transaction { payload: vec![3] })
        .unwrap();
    let leader = DAConsensusLeader {
        id: 0,
        consensus,
        high_qc: QuorumCertificate::genesis(),
        cur_view: 1,
        cert: DACertificate {
            view_number: 1,
            block_commitment: block.commit(),
            signatures: AssembledSignature::Genesis(),
        },
        block: block.clone(),
        exchange: quorum_exchange(0),
    };
    let (message, leaf) = leader.propose(777).expect("the proposal builds");
    assert_eq!(leaf.view_number, 1);
    assert_eq!(leaf.height, 1);
    assert_eq!(leaf.timestamp, 777);
    assert_eq!(leaf.parent_commitment.bytes, genesis_commit.bytes);
    assert!(leaf.justify_qc.is_genesis);
    match message {
        GeneralConsensusMessage::Proposal(proposal, _signature) => {
            assert_eq!(proposal.view_number, 1);
            assert_eq!(proposal.block_commitment.bytes, block.commit().bytes);
            assert!(proposal.justify_qc.is_genesis);
        }
        _ => panic!("the leader broadcasts a commitment proposal"),
    }
}

#[test]
fn next_leader_falls_back_to_the_highest_justifying_certificate() {
    // Yes votes {A, B} on lc2 stay below threshold; a timeout vote
    // carries QC(view 1); the interrupt ends collection and the
    // max-view certificate wins.
    let next_leader = DANextLeader {
        id: 0,
        cur_view: 2,
        exchange: quorum_exchange(0),
        generic_qc: QuorumCertificate::genesis(),
    };
    let lc2 = Commitment { bytes: vec![2, 2] };
    let qc1 = QuorumCertificate {
        leaf_commitment: Commitment { bytes: vec![1, 1] },
        view_number: 1,
        signatures: AssembledSignature::Genesis(),
        is_genesis: false,
    };
    let mut state = next_leader.start();
    for voter in [0u64, 1] {
        match next_leader.handle_message(
            yes_vote_message(voter, lc2.clone(), 2),
            state,
        ) {
            NextLeaderStep::Continue(s) => state = s,
            _ => panic!("two votes stay below the threshold of three"),
        }
    }
    match next_leader.handle_message(timeout_vote_message(2, qc1, 2), state) {
        NextLeaderStep::Continue(s) => state = s,
        _ => panic!("a timeout vote only records its certificate"),
    }
    match next_leader.handle_message(ProcessedConsensusMessage::NextViewInterrupt(2), state) {
        NextLeaderStep::Interrupted(s) => {
            let fallback = next_leader.finish(s);
            assert_eq!(fallback.view_number, 1);
            assert_eq!(fallback.leaf_commitment.bytes, vec![1, 1]);
        }
        _ => panic!("the interrupt ends collection"),
    }
}

#[test]
fn next_leader_assembles_a_quorum_certificate_at_threshold() {
    let next_leader = DANextLeader {
        id: 0,
        cur_view: 2,
        exchange: quorum_exchange(0),
        generic_qc: QuorumCertificate::genesis(),
    };
    let lc = Commitment { bytes: vec![6] };
    let mut state = next_leader.start();
    for voter in [0u64, 1] {
        match next_leader.handle_message(yes_vote_message(voter, lc.clone(), 2), state) {
            NextLeaderStep::Continue(s) => state = s,
            _ => panic!("below threshold"),
        }
    }
    match next_leader.handle_message(yes_vote_message(2, lc.clone(), 2), state) {
        NextLeaderStep::Complete(qc) => {
            assert_eq!(qc.view_number, 2);
            assert!(!qc.is_genesis);
            assert_eq!(qc.leaf_commitment.bytes, lc.bytes);
        }
        _ => panic!("the third vote completes the certificate"),
    }
}
