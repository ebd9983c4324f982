//! The wire format: exact encodings and round trips for messages and
//! leaves.

use sequencing_core::certificate::{AssembledSignature, DACertificate, QuorumCertificate};
use sequencing_core::codec::{decode_leaf, decode_quorum_certificate, encode_leaf, encode_quorum_certificate};
use sequencing_core::commitment::{fake_commitment, Commitment};
use sequencing_core::data::{Block, Leaf, State, Transaction};
use sequencing_core::election::{StaticCommittee, StaticVoteToken, VoteData};
use sequencing_core::exchange::CommitteeExchange;
use sequencing_core::message::{
    CommitmentProposal, CommitteeConsensusMessage, ConsensusMessage, DataMessage,
    GeneralConsensusMessage,
};
use sequencing_core::signature::{sign, PrivateKey, PublicKey, StakeTableEntry};
use sequencing_core::wire_codec::{decode_consensus_message, encode_consensus_message};
use sequencing_core::Either;

fn entries(n: u64) -> Vec<StakeTableEntry> {
    (0..n).map(|i| StakeTableEntry { key_id: i, stake: 1 }).collect()
}

fn keys(n: u64) -> Vec<PublicKey> {
    (0..n).map(|i| PublicKey { id: i }).collect()
}

#[test]
fn u64_big_endian_bytes_are_exact() {
    let mut out: Vec<u8> = Vec::new();
    sequencing_core::wire::push_u64_be(&mut out, 0x0102030405060708);
    assert_eq!(out, vec![1, 2, 3, 4, 5, 6, 7, 8]);
    let back = sequencing_core::wire::read_u64_be(&out, 0);
    assert_eq!(back, 0x0102030405060708);
}

#[test]
fn da_vote_message_round_trips() {
    let exchange = CommitteeExchange::create(
        entries(4),
        keys(4),
        StaticCommittee::default_election_config(4),
        PublicKey { id: 1 },
        StakeTableEntry { key_id: 1, stake: 1 },
        PrivateKey { id: 1 },
    );
    let token = StaticVoteToken { key_id: 1, view_number: 4, count: 1 };
    let vote_message = exchange.create_da_message(Commitment { bytes: vec![9, 8, 7] }, 4, token);
    let message = ConsensusMessage::Committee(vote_message);
    let bytes = encode_consensus_message(&message);
    let (decoded, used) = decode_consensus_message(&bytes, 0).expect("own bytes decode");
    assert_eq!(used, bytes.len());
    match decoded {
        ConsensusMessage::Committee(CommitteeConsensusMessage::DAVote(v)) => {
            assert_eq!(v.current_view, 4);
            assert_eq!(v.block_commitment.bytes, vec![9, 8, 7]);
            assert_eq!(v.vote_token.key_id, 1);
            match v.vote_data {
                VoteData::DA(c) => assert_eq!(c.bytes, vec![9, 8, 7]),
                _ => panic!("the vote data phase survives"),
            }
        }
        _ => panic!("the message kind survives"),
    }
}

#[test]
fn commitment_proposal_message_round_trips() {
    let proposal = CommitmentProposal {
        block_commitment: Commitment { bytes: vec![1, 2] },
        view_number: 6,
        justify_qc: QuorumCertificate::genesis(),
        dac: DACertificate {
            view_number: 6,
            block_commitment: Commitment { bytes: vec![1, 2] },
            signatures: AssembledSignature::Genesis(),
        },
        state_commitment: Commitment { bytes: vec![3] },
        proposer_id: PublicKey { id: 2 }.to_bytes(),
    };
    let signature = sign(&PrivateKey { id: 2 }, &vec![0xAA]);
    let message = ConsensusMessage::General(GeneralConsensusMessage::Proposal(proposal, signature));
    let bytes = encode_consensus_message(&message);
    let (decoded, used) = decode_consensus_message(&bytes, 0).expect("own bytes decode");
    assert_eq!(used, bytes.len());
    match decoded {
        ConsensusMessage::General(GeneralConsensusMessage::Proposal(p, _)) => {
            assert_eq!(p.view_number, 6);
            assert_eq!(p.block_commitment.bytes, vec![1, 2]);
            assert!(p.justify_qc.is_genesis);
            assert_eq!(p.state_commitment.bytes, vec![3]);
        }
        _ => panic!("the message kind survives"),
    }
}

#[test]
fn transaction_submission_round_trips() {
    let message = ConsensusMessage::Data(DataMessage::SubmitTransaction(
        Transaction { payload: vec![4, 5, 6] },
        11,
    ));
    let bytes = encode_consensus_message(&message);
    let (decoded, used) = decode_consensus_message(&bytes, 0).expect("own bytes decode");
    assert_eq!(used, bytes.len());
    match decoded {
        ConsensusMessage::Data(DataMessage::SubmitTransaction(t, view)) => {
            assert_eq!(t.payload, vec![4, 5, 6]);
            assert_eq!(view, 11);
        }
        _ => panic!("the message kind survives"),
    }
}

#[test]
fn truncated_message_does_not_decode() {
    let message = ConsensusMessage::Data(DataMessage::SubmitTransaction(
        Transaction { payload: vec![4, 5, 6] },
        11,
    ));
    let mut bytes = encode_consensus_message(&message);
    bytes.pop();
    assert!(decode_consensus_message(&bytes, 0).is_none());
}

#[test]
fn quorum_certificate_round_trips() {
    let qc = QuorumCertificate {
        leaf_commitment: Commitment { bytes: vec![7, 7, 7] },
        view_number: 13,
        signatures: AssembledSignature::Genesis(),
        is_genesis: false,
    };
    let bytes = encode_quorum_certificate(&qc);
    let (decoded, used) = decode_quorum_certificate(&bytes, 0).expect("own bytes decode");
    assert_eq!(used, bytes.len());
    assert_eq!(decoded.leaf_commitment.bytes, vec![7, 7, 7]);
    assert_eq!(decoded.view_number, 13);
    assert!(!decoded.is_genesis);
}

#[test]
fn leaf_commitment_is_stable_under_encode_then_decode() {
    let block = Block::new()
        .add_transaction_raw(&Transaction { payload: vec![1] })
        .unwrap();
    let state = State::genesis().append(&block, 1).unwrap();
    let leaf = Leaf {
        view_number: 1,
        height: 1,
        justify_qc: QuorumCertificate::genesis(),
        parent_commitment: fake_commitment(),
        deltas: block,
        state: Either::Left(state),
        rejected: vec![Transaction { payload: vec![2] }],
        timestamp: 1234,
        proposer_id: PublicKey { id: 0 }.to_bytes(),
    };
    let commitment_before = leaf.commit();
    let bytes = encode_leaf(&leaf);
    let (decoded, used) = decode_leaf(&bytes, 0).expect("own bytes decode");
    assert_eq!(used, bytes.len());
    assert_eq!(decoded.commit().bytes, commitment_before.bytes);
    assert_eq!(decoded.view_number, 1);
    assert_eq!(decoded.rejected.len(), 1);
}

#[test]
fn vote_data_as_bytes_round_trips() {
    let data = VoteData::Timeout(Commitment { bytes: vec![0xDD] });
    let bytes = data.as_bytes();
    let (decoded, used) = sequencing_core::codec::decode_vote_data(&bytes, 0)
        .expect("own bytes decode");
    assert_eq!(used, bytes.len());
    match &decoded {
        VoteData::Timeout(c) => assert_eq!(c.bytes, vec![0xDD]),
        _ => panic!("the phase survives"),
    }
    assert_eq!(decoded.commit().bytes, data.commit().bytes);
}
