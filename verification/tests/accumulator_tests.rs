//! The vote accumulator: the happy path over a four-member committee, an
//! equivocating leader, duplicate votes, and order independence.

use sequencing_core::accumulator::VoteAccumulator;
use sequencing_core::certificate::{AssembledSignature, serialize_signature};
use sequencing_core::commitment::Commitment;
use sequencing_core::da::{DALeader, DaCollectStep, ProcessedConsensusMessage, Vote};
use sequencing_core::consensus::Consensus;
use sequencing_core::certificate::QuorumCertificate;
use sequencing_core::election::StaticCommittee;
use sequencing_core::exchange::CommitteeExchange;
use sequencing_core::message::{CommitteeConsensusMessage, DAVote};
use sequencing_core::signature::{PrivateKey, PublicKey, StakeTableEntry};

fn entries(n: u64) -> Vec<StakeTableEntry> {
    (0..n).map(|i| StakeTableEntry { key_id: i, stake: 1 }).collect()
}

fn keys(n: u64) -> Vec<PublicKey> {
    (0..n).map(|i| PublicKey { id: i }).collect()
}

fn committee_exchange(own: u64) -> CommitteeExchange {
    let config = StaticCommittee::default_election_config(4);
    CommitteeExchange::create(
        entries(4),
        keys(4),
        config,
        PublicKey { id: own },
        StakeTableEntry { key_id: own, stake: 1 },
        PrivateKey { id: own },
    )
}

fn da_leader(own: u64) -> DALeader {
    DALeader {
        id: own,
        consensus: Consensus::genesis(),
        high_qc: QuorumCertificate::genesis(),
        cur_view: 1,
        exchange: committee_exchange(own),
        min_transactions: 0,
    }
}

fn da_vote_message(voter: u64, block_commitment: Commitment, view: u64) -> ProcessedConsensusMessage {
    let exchange = committee_exchange(voter);
    let token = exchange.make_vote_token(view).unwrap().unwrap();
    let message = exchange.create_da_message(block_commitment, view, token);
    let vote = match message {
        CommitteeConsensusMessage::DAVote(v) => v,
        _ => panic!("expected a DA vote"),
    };
    let sender = vote.signature.0.clone();
    ProcessedConsensusMessage::Vote(Vote::DA(vote), sender)
}

fn collect(
    leader: &DALeader,
    acc: VoteAccumulator,
    msg: ProcessedConsensusMessage,
) -> DaCollectStep {
    leader.handle_message(msg, acc)
}

#[test]
fn four_member_committee_reaches_threshold_at_three_votes() {
    // Stake {A:1, B:1, C:1, D:1}, success threshold 3; all vote on bc1.
    let leader = da_leader(0);
    assert_eq!(leader.exchange.membership.config.success_threshold, 3);
    let bc1 = Commitment { bytes: vec![1, 2, 3] };
    let mut acc = leader.new_accumulator();
    for voter in 0..2u64 {
        match collect(&leader, acc, da_vote_message(voter, bc1.clone(), 1)) {
            DaCollectStep::Continue(a) => acc = a,
            _ => panic!("threshold must not be reached before the third vote"),
        }
    }
    match collect(&leader, acc, da_vote_message(2, bc1.clone(), 1)) {
        DaCollectStep::Complete(cert) => {
            assert_eq!(cert.view_number, 1);
            assert_eq!(cert.block_commitment.bytes, bc1.bytes);
            match cert.signatures {
                AssembledSignature::DA(agg) => assert_eq!(agg.entries.len(), 3),
                _ => panic!("a DA certificate carries DA signatures"),
            }
        }
        _ => panic!("the third vote crosses the threshold"),
    }
}

#[test]
fn equivocating_proposals_never_reach_threshold() {
    // Two distinct blocks, each seen by half the committee: no certificate.
    let leader = da_leader(0);
    let bc1 = Commitment { bytes: vec![1] };
    let bc2 = Commitment { bytes: vec![2] };
    let mut acc = leader.new_accumulator();
    for (voter, commitment) in [(0u64, &bc1), (1, &bc1), (2, &bc2), (3, &bc2)] {
        match collect(&leader, acc, da_vote_message(voter, commitment.clone(), 1)) {
            DaCollectStep::Continue(a) => acc = a,
            _ => panic!("neither commitment may reach threshold"),
        }
    }
    assert_eq!(acc.vote_outcomes.len(), 2);
    for outcome in &acc.vote_outcomes {
        assert_eq!(outcome.stake_casted, 2);
    }
}

#[test]
fn duplicate_vote_does_not_increase_stake() {
    let leader = da_leader(0);
    let bc1 = Commitment { bytes: vec![7] };
    let mut acc = leader.new_accumulator();
    match collect(&leader, acc, da_vote_message(0, bc1.clone(), 1)) {
        DaCollectStep::Continue(a) => acc = a,
        _ => panic!("one vote is below threshold"),
    }
    match collect(&leader, acc, da_vote_message(0, bc1.clone(), 1)) {
        DaCollectStep::Continue(a) => acc = a,
        _ => panic!("a duplicate never completes"),
    }
    assert_eq!(acc.vote_outcomes.len(), 1);
    assert_eq!(acc.vote_outcomes[0].stake_casted, 1);
    assert_eq!(acc.vote_outcomes[0].votes.len(), 1);
}

#[test]
fn same_votes_in_any_order_assemble_the_same_certificate() {
    // The accumulator is commutative: both arrival orders of the same
    // votes emit byte-identical assembled signatures.
    let leader = da_leader(0);
    let bc1 = Commitment { bytes: vec![9, 9] };
    let order_one = [0u64, 1, 2];
    let order_two = [2u64, 0, 1];
    let mut certs: Vec<Vec<u8>> = Vec::new();
    for order in [order_one, order_two] {
        let mut acc = leader.new_accumulator();
        let mut done = None;
        for voter in order {
            match collect(&leader, acc, da_vote_message(voter, bc1.clone(), 1)) {
                DaCollectStep::Continue(a) => acc = a,
                DaCollectStep::Complete(cert) => {
                    done = Some(cert);
                    break;
                }
                DaCollectStep::Interrupted => panic!("no interrupt was sent"),
            }
        }
        let cert = done.expect("three votes reach the threshold");
        certs.push(serialize_signature(&cert.signatures));
    }
    assert_eq!(certs[0], certs[1]);
}

#[test]
fn foreign_view_vote_is_dropped() {
    // A vote for view 7 while the leader runs view 8 leaves the
    // accumulator unchanged.
    let mut leader = da_leader(0);
    leader.cur_view = 8;
    let bc1 = Commitment { bytes: vec![4] };
    let acc = leader.new_accumulator();
    match collect(&leader, acc, da_vote_message(0, bc1, 7)) {
        DaCollectStep::Continue(a) => assert_eq!(a.vote_outcomes.len(), 0),
        _ => panic!("a foreign-view vote is dropped"),
    }
}

#[test]
fn interrupt_stops_collection() {
    let leader = da_leader(0);
    let acc = leader.new_accumulator();
    match collect(&leader, acc, ProcessedConsensusMessage::NextViewInterrupt(1)) {
        DaCollectStep::Interrupted => {}
        _ => panic!("the interrupt stops collection"),
    }
}

#[test]
fn sender_mismatch_is_dropped() {
    let leader = da_leader(0);
    let bc1 = Commitment { bytes: vec![5] };
    let acc = leader.new_accumulator();
    let message = match da_vote_message(0, bc1, 1) {
        ProcessedConsensusMessage::Vote(Vote::DA(v), _) => {
            // Claim the vote came from someone else.
            let sender = PublicKey { id: 1 }.to_bytes();
            ProcessedConsensusMessage::Vote(Vote::DA(v), sender)
        }
        _ => unreachable!(),
    };
    match collect(&leader, acc, message) {
        DaCollectStep::Continue(a) => assert_eq!(a.vote_outcomes.len(), 0),
        _ => panic!("a vote whose key is not the sender's is dropped"),
    }
}
