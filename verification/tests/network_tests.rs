//! The network task: message classification, outbound routing, and the
//! per-role filters.

use sequencing_core::certificate::{AssembledSignature, DACertificate};
use sequencing_core::commitment::Commitment;
use sequencing_core::data::Transaction;
use sequencing_core::election::{StaticCommittee, StaticVoteToken};
use sequencing_core::exchange::CommitteeExchange;
use sequencing_core::message::{
    CommitteeConsensusMessage, ConsensusMessage, DataMessage, DAVote,
};
use sequencing_core::network::{
    Message, NetworkAction, NetworkTaskKind, NetworkTaskState, SequencingHotShotEvent,
};
use sequencing_core::signature::{PrivateKey, PublicKey, StakeTableEntry};

fn entries(n: u64) -> Vec<StakeTableEntry> {
    (0..n).map(|i| StakeTableEntry { key_id: i, stake: 1 }).collect()
}

fn keys(n: u64) -> Vec<PublicKey> {
    (0..n).map(|i| PublicKey { id: i }).collect()
}

fn committee(n: u64) -> StaticCommittee {
    StaticCommittee::create_election(entries(n), keys(n), StaticCommittee::default_election_config(n))
}

fn da_vote(view: u64) -> DAVote {
    let exchange = CommitteeExchange::create(
        entries(4),
        keys(4),
        StaticCommittee::default_election_config(4),
        PublicKey { id: 2 },
        StakeTableEntry { key_id: 2, stake: 1 },
        PrivateKey { id: 2 },
    );
    let token = StaticVoteToken { key_id: 2, view_number: view, count: 1 };
    match exchange.create_da_message(Commitment { bytes: vec![1] }, view, token) {
        CommitteeConsensusMessage::DAVote(v) => v,
        _ => panic!("expected a DA vote"),
    }
}

#[test]
fn incoming_da_vote_classifies_as_da_vote_event() {
    let task = NetworkTaskState { view: 0 };
    let message = Message {
        sender: PublicKey { id: 2 }.to_bytes(),
        kind: ConsensusMessage::Committee(CommitteeConsensusMessage::DAVote(da_vote(3))),
    };
    match task.handle_message(message) {
        SequencingHotShotEvent::DAVoteRecv(v) => assert_eq!(v.current_view, 3),
        _ => panic!("a DA vote classifies as DAVoteRecv"),
    }
}

#[test]
fn incoming_transaction_classifies_as_transaction_event() {
    let task = NetworkTaskState { view: 0 };
    let message = Message {
        sender: PublicKey { id: 1 }.to_bytes(),
        kind: ConsensusMessage::Data(DataMessage::SubmitTransaction(
            Transaction { payload: vec![5, 5] },
            4,
        )),
    };
    match task.handle_message(message) {
        SequencingHotShotEvent::TransactionRecv(t) => assert_eq!(t.payload, vec![5, 5]),
        _ => panic!("a submission classifies as TransactionRecv"),
    }
}

#[test]
fn da_vote_send_goes_direct_to_the_view_leader() {
    let committee = committee(4);
    let mut task = NetworkTaskState { view: 0 };
    let vote = da_vote(3);
    match task.handle_event(SequencingHotShotEvent::DAVoteSend(vote), &committee) {
        NetworkAction::Direct(message, recipient) => {
            // leader(view 3) = key 3 in a round-robin committee of four.
            assert_eq!(recipient.id, 3);
            match message.kind {
                ConsensusMessage::Committee(CommitteeConsensusMessage::DAVote(v)) => {
                    assert_eq!(v.current_view, 3);
                }
                _ => panic!("the vote travels inside a committee message"),
            }
        }
        _ => panic!("a DA vote is sent directly"),
    }
}

#[test]
fn dac_send_is_broadcast() {
    let committee = committee(4);
    let mut task = NetworkTaskState { view: 0 };
    let cert = DACertificate {
        view_number: 2,
        block_commitment: Commitment { bytes: vec![1] },
        signatures: AssembledSignature::Genesis(),
    };
    let sender = PublicKey { id: 0 }.to_bytes();
    match task.handle_event(SequencingHotShotEvent::DACSend(cert, sender), &committee) {
        NetworkAction::Broadcast(message) => match message.kind {
            ConsensusMessage::Committee(CommitteeConsensusMessage::DACertificate(c)) => {
                assert_eq!(c.view_number, 2);
            }
            _ => panic!("the certificate travels inside a committee message"),
        },
        _ => panic!("a DA certificate is broadcast"),
    }
}

#[test]
fn view_change_updates_the_view_and_shutdown_completes() {
    let committee = committee(4);
    let mut task = NetworkTaskState { view: 0 };
    match task.handle_event(SequencingHotShotEvent::ViewChange(9), &committee) {
        NetworkAction::Ignore => {}
        _ => panic!("a view change sends nothing"),
    }
    assert_eq!(task.view, 9);
    match task.handle_event(SequencingHotShotEvent::Shutdown, &committee) {
        NetworkAction::Completed => {}
        _ => panic!("shutdown completes the task"),
    }
}

#[test]
fn transaction_send_carries_the_current_view() {
    let committee = committee(4);
    let mut task = NetworkTaskState { view: 6 };
    let sender = PublicKey { id: 0 }.to_bytes();
    let event = SequencingHotShotEvent::TransactionSend(
        Transaction { payload: vec![9] },
        sender,
    );
    match task.handle_event(event, &committee) {
        NetworkAction::Broadcast(message) => match message.kind {
            ConsensusMessage::Data(DataMessage::SubmitTransaction(_, view)) => {
                assert_eq!(view, 6);
            }
            _ => panic!("the transaction travels inside a data message"),
        },
        _ => panic!("a transaction is broadcast"),
    }
}

#[test]
fn filters_select_their_role_and_always_pass_the_barriers() {
    let vote_event = SequencingHotShotEvent::DAVoteSend(da_vote(1));
    assert!(NetworkTaskState::committee_filter(&vote_event));
    assert!(!NetworkTaskState::quorum_filter(&vote_event));
    assert!(!NetworkTaskState::view_sync_filter(&vote_event));
    assert!(NetworkTaskState::filter(NetworkTaskKind::Committee, &vote_event));
    assert!(!NetworkTaskState::filter(NetworkTaskKind::Quorum, &vote_event));
    // Every filter forwards Shutdown and ViewChange.
    for kind in [NetworkTaskKind::Quorum, NetworkTaskKind::Committee, NetworkTaskKind::ViewSync] {
        assert!(NetworkTaskState::filter(kind, &SequencingHotShotEvent::Shutdown));
        assert!(NetworkTaskState::filter(kind, &SequencingHotShotEvent::ViewChange(1)));
    }
}

#[test]
fn inbound_events_are_ignored_on_the_outbound_path() {
    let committee = committee(4);
    let mut task = NetworkTaskState { view: 0 };
    let event = SequencingHotShotEvent::DAVoteRecv(da_vote(1));
    match task.handle_event(event, &committee) {
        NetworkAction::Ignore => {}
        _ => panic!("an inbound event is not sent back out"),
    }
}
