//! Certificates: genesis, assembly, commitments, and stake-threshold
//! verification.

use sequencing_core::certificate::{
    serialize_signature, AssembledSignature, DACertificate, QuorumCertificate,
    ViewSyncCertificate, ViewSyncCertificateInternal,
};
use sequencing_core::commitment::Commitment;
use sequencing_core::election::{StaticCommittee, VoteData};
use sequencing_core::exchange::{CommitteeExchange, QuorumExchange, ViewSyncExchange};
use sequencing_core::message::ViewSyncData;
use sequencing_core::signature::{
    sign, AggregateSignature, PrivateKey, PublicKey, SignaturePair, StakeTableEntry,
};

fn entries(n: u64) -> Vec<StakeTableEntry> {
    (0..n).map(|i| StakeTableEntry { key_id: i, stake: 1 }).collect()
}

fn keys(n: u64) -> Vec<PublicKey> {
    (0..n).map(|i| PublicKey { id: i }).collect()
}

fn quorum_exchange() -> QuorumExchange {
    QuorumExchange::create(
        entries(4),
        keys(4),
        StaticCommittee::default_election_config(4),
        PublicKey { id: 0 },
        StakeTableEntry { key_id: 0, stake: 1 },
        PrivateKey { id: 0 },
    )
}

fn committee_exchange() -> CommitteeExchange {
    CommitteeExchange::create(
        entries(4),
        keys(4),
        StaticCommittee::default_election_config(4),
        PublicKey { id: 0 },
        StakeTableEntry { key_id: 0, stake: 1 },
        PrivateKey { id: 0 },
    )
}

fn view_sync_exchange() -> ViewSyncExchange {
    ViewSyncExchange::create(
        entries(4),
        keys(4),
        StaticCommittee::default_election_config(4),
        PublicKey { id: 0 },
        StakeTableEntry { key_id: 0, stake: 1 },
        PrivateKey { id: 0 },
    )
}

/// Signatures by `signers` over the tagged commitment of `data`.
fn aggregate_over(signers: &[u64], data: &VoteData) -> AggregateSignature {
    let message = data.commit();
    let entries = signers
        .iter()
        .map(|&i| SignaturePair {
            key: PublicKey { id: i }.to_bytes(),
            signature: sign(&PrivateKey { id: i }, &message.bytes),
        })
        .collect();
    AggregateSignature { entries }
}

#[test]
fn genesis_certificate_is_valid_for_the_genesis_view() {
    let exchange = quorum_exchange();
    let genesis = QuorumCertificate::genesis();
    assert!(genesis.is_genesis());
    assert_eq!(genesis.view_number(), 0);
    let any = Commitment { bytes: vec![1] };
    assert!(exchange.is_valid_cert(&genesis, &any));
}

#[test]
fn quorum_certificate_with_threshold_stake_verifies() {
    // verify(C) demands stake >= success threshold (3 of 4 here).
    let exchange = quorum_exchange();
    let lc = Commitment { bytes: vec![42] };
    let data = VoteData::Yes(Commitment { bytes: lc.bytes.clone() });
    let qc = QuorumCertificate::from_signatures_and_commitment(
        5,
        AssembledSignature::Yes(aggregate_over(&[0, 1, 2], &data)),
        Commitment { bytes: lc.bytes.clone() },
        None,
    );
    assert!(exchange.is_valid_cert(&qc, &lc));
}

#[test]
fn quorum_certificate_below_threshold_is_rejected() {
    let exchange = quorum_exchange();
    let lc = Commitment { bytes: vec![42] };
    let data = VoteData::Yes(Commitment { bytes: lc.bytes.clone() });
    let qc = QuorumCertificate::from_signatures_and_commitment(
        5,
        AssembledSignature::Yes(aggregate_over(&[0, 1], &data)),
        Commitment { bytes: lc.bytes.clone() },
        None,
    );
    assert!(!exchange.is_valid_cert(&qc, &lc));
}

#[test]
fn certificate_over_wrong_commitment_is_rejected() {
    let exchange = quorum_exchange();
    let lc = Commitment { bytes: vec![42] };
    let data = VoteData::Yes(Commitment { bytes: lc.bytes.clone() });
    let qc = QuorumCertificate::from_signatures_and_commitment(
        5,
        AssembledSignature::Yes(aggregate_over(&[0, 1, 2], &data)),
        Commitment { bytes: lc.bytes.clone() },
        None,
    );
    let other = Commitment { bytes: vec![43] };
    assert!(!exchange.is_valid_cert(&qc, &other));
}

#[test]
fn mismatched_signature_kind_is_rejected() {
    // Yes-tagged signatures presented as a DA aggregate fail: the
    // verifier recomputes the DA-tagged commitment.
    let exchange = quorum_exchange();
    let lc = Commitment { bytes: vec![42] };
    let data = VoteData::Yes(Commitment { bytes: lc.bytes.clone() });
    let qc = QuorumCertificate::from_signatures_and_commitment(
        5,
        AssembledSignature::DA(aggregate_over(&[0, 1, 2], &data)),
        Commitment { bytes: lc.bytes.clone() },
        None,
    );
    assert!(!exchange.is_valid_cert(&qc, &lc));
}

#[test]
fn da_certificate_verifies_with_threshold_stake() {
    let exchange = committee_exchange();
    let bc = Commitment { bytes: vec![9, 9] };
    let data = VoteData::DA(Commitment { bytes: bc.bytes.clone() });
    let dac = DACertificate::from_signatures_and_commitment(
        2,
        AssembledSignature::DA(aggregate_over(&[1, 2, 3], &data)),
        Commitment { bytes: bc.bytes.clone() },
        None,
    );
    assert!(exchange.is_valid_cert(&dac, &bc));
    assert!(!dac.is_genesis());
    assert_eq!(dac.view_number(), 2);
    assert_eq!(dac.leaf_commitment().bytes, bc.bytes);
}

#[test]
fn quorum_certificate_commit_bytes_follow_the_rule() {
    // H(tag || leaf_commitment || view_be || label || signatures).
    let qc = QuorumCertificate {
        leaf_commitment: Commitment { bytes: vec![0xEE] },
        view_number: 7,
        signatures: AssembledSignature::Genesis(),
        is_genesis: false,
    };
    let commit = qc.commit();
    let mut expected = b"Quorum Certificate Commitment".to_vec();
    expected.extend_from_slice(&[0xEE]);
    expected.extend_from_slice(&[0, 0, 0, 0, 0, 0, 0, 7]);
    expected.extend_from_slice(b"justify_qc signatures");
    expected.extend_from_slice(&serialize_signature(&qc.signatures));
    assert_eq!(commit.bytes, expected);
}

#[test]
fn view_sync_certificate_validates_its_own_phase() {
    let exchange = view_sync_exchange();
    let round = 3u64;
    let relay = 1u64;
    let relay_key = exchange.get_leader(round + relay).to_bytes();
    let vs_data = ViewSyncData { relay: relay_key, round };
    let data = VoteData::ViewSyncCommit(vs_data.commit());
    let cert = ViewSyncCertificate::Commit(ViewSyncCertificateInternal {
        relay,
        round,
        signatures: AssembledSignature::ViewSyncCommit(aggregate_over(&[0, 1, 2], &data)),
    });
    assert!(exchange.is_valid_view_sync_cert(&cert, round));
    // The pre-commit phase with the same signatures does not validate.
    let wrong_phase = ViewSyncCertificate::PreCommit(ViewSyncCertificateInternal {
        relay,
        round,
        signatures: AssembledSignature::ViewSyncCommit(aggregate_over(&[0, 1, 2], &data)),
    });
    assert!(!exchange.is_valid_view_sync_cert(&wrong_phase, round));
}

#[test]
fn precommit_certificate_needs_only_the_failure_threshold() {
    // Failure threshold is 2 of 4: two pre-commit signers suffice.
    let exchange = view_sync_exchange();
    let round = 3u64;
    let relay = 0u64;
    let relay_key = exchange.get_leader(round + relay).to_bytes();
    let vs_data = ViewSyncData { relay: relay_key, round };
    let data = VoteData::ViewSyncPreCommit(vs_data.commit());
    let cert = ViewSyncCertificate::PreCommit(ViewSyncCertificateInternal {
        relay,
        round,
        signatures: AssembledSignature::ViewSyncPreCommit(aggregate_over(&[0, 1], &data)),
    });
    assert!(exchange.is_valid_view_sync_cert(&cert, round));
}

#[test]
fn view_sync_certificate_as_bytes_round_trips() {
    let cert = ViewSyncCertificate::Finalize(ViewSyncCertificateInternal {
        relay: 2,
        round: 9,
        signatures: AssembledSignature::Genesis(),
    });
    let bytes = cert.as_bytes();
    let (decoded, used) = sequencing_core::codec::decode_view_sync_certificate(&bytes, 0)
        .expect("a certificate's own bytes decode");
    assert_eq!(used, bytes.len());
    match decoded {
        ViewSyncCertificate::Finalize(i) => {
            assert_eq!(i.relay, 2);
            assert_eq!(i.round, 9);
        }
        _ => panic!("the phase survives the round trip"),
    }
}
