//! Membership, tokens, thresholds, vote-data commitments and domain
//! separation.

use sequencing_core::commitment::Commitment;
use sequencing_core::election::{
    Checked, Membership, StaticCommittee, StaticVoteToken, TestableElection, VoteData, VoteToken,
};
use sequencing_core::exchange::QuorumExchange;
use sequencing_core::signature::{sign, PrivateKey, PublicKey, StakeTableEntry};

fn entries(n: u64) -> Vec<StakeTableEntry> {
    (0..n).map(|i| StakeTableEntry { key_id: i, stake: 1 }).collect()
}

fn keys(n: u64) -> Vec<PublicKey> {
    (0..n).map(|i| PublicKey { id: i }).collect()
}

fn committee(n: u64) -> StaticCommittee {
    let config = StaticCommittee::default_election_config(n);
    StaticCommittee::create_election(entries(n), keys(n), config)
}

#[test]
fn default_config_obeys_bft_arithmetic() {
    // success > 2/3 of total, failure = total/3 + 1.
    let config = StaticCommittee::default_election_config(4);
    assert_eq!(config.success_threshold, 3);
    assert_eq!(config.failure_threshold, 2);
    let config7 = StaticCommittee::default_election_config(7);
    assert_eq!(config7.success_threshold, 5);
    assert_eq!(config7.failure_threshold, 3);
}

#[test]
fn leader_rotates_round_robin() {
    let committee = committee(4);
    assert_eq!(committee.get_leader(0).id, 0);
    assert_eq!(committee.get_leader(1).id, 1);
    assert_eq!(committee.get_leader(5).id, 1);
    assert_eq!(committee.total_nodes(), 4);
}

#[test]
fn vote_token_carries_the_stake_and_zero_stake_gets_none() {
    let committee = committee(4);
    let token = committee.make_vote_token(3, &PrivateKey { id: 2 }).unwrap().unwrap();
    assert_eq!(token.key_id, 2);
    assert_eq!(token.view_number, 3);
    assert_eq!(token.vote_count(), 1);
    // A key outside the table holds no stake this view.
    assert!(committee.make_vote_token(3, &PrivateKey { id: 9 }).unwrap().is_none());
}

#[test]
fn validate_vote_token_checks_holder_and_weight() {
    let committee = committee(4);
    let good = StaticVoteToken { key_id: 1, view_number: 0, count: 1 };
    match committee.validate_vote_token(&PublicKey { id: 1 }, Checked::Unchecked(good)) {
        Ok(Checked::Valid(t)) => assert_eq!(t, good),
        _ => panic!("a token carrying the table stake is valid"),
    }
    let inflated = StaticVoteToken { key_id: 1, view_number: 0, count: 5 };
    match committee.validate_vote_token(&PublicKey { id: 1 }, Checked::Unchecked(inflated)) {
        Ok(Checked::Inval(_)) => {}
        _ => panic!("an inflated token is invalid"),
    }
    let stolen = StaticVoteToken { key_id: 2, view_number: 0, count: 1 };
    match committee.validate_vote_token(&PublicKey { id: 1 }, Checked::Unchecked(stolen)) {
        Ok(Checked::Inval(_)) => {}
        _ => panic!("another key's token is invalid"),
    }
}

#[test]
fn generate_test_vote_token_is_minimal() {
    let token = <StaticCommittee as TestableElection>::generate_test_vote_token();
    assert_eq!(token.count, 1);
}

#[test]
fn vote_data_commit_is_the_tagged_commitment() {
    // commit(VoteData) = tag || commitment, with the UTF-8 domain tag.
    let c = Commitment { bytes: vec![0xAB, 0xCD] };
    let da = VoteData::DA(c).commit();
    let mut expected = b"DA Block Commit".to_vec();
    expected.extend_from_slice(&[0xAB, 0xCD]);
    assert_eq!(da.bytes, expected);

    let yes = VoteData::Yes(Commitment { bytes: vec![0xAB, 0xCD] }).commit();
    let mut expected_yes = b"Yes Vote Commit".to_vec();
    expected_yes.extend_from_slice(&[0xAB, 0xCD]);
    assert_eq!(yes.bytes, expected_yes);
}

#[test]
fn cross_role_signature_reuse_fails() {
    // A Yes-vote signature replayed as a DA vote is rejected: the DA
    // verifier recomputes a different tagged commitment.
    let committee = committee(4);
    let exchange = QuorumExchange::create(
        entries(4),
        keys(4),
        StaticCommittee::default_election_config(4),
        PublicKey { id: 0 },
        StakeTableEntry { key_id: 0, stake: 1 },
        PrivateKey { id: 0 },
    );
    let c = Commitment { bytes: vec![1, 2, 3] };
    let (key, signature) = exchange.sign_yes_vote(Commitment { bytes: c.bytes.clone() });
    let token = committee.make_vote_token(1, &PrivateKey { id: 0 }).unwrap().unwrap();
    // Accepted under the Yes tag it was made for.
    assert!(exchange.is_valid_vote(
        &key,
        &signature,
        &VoteData::Yes(Commitment { bytes: c.bytes.clone() }),
        Checked::Unchecked(token),
    ));
    // Rejected when replayed under the DA tag.
    assert!(!exchange.is_valid_vote(
        &key,
        &signature,
        &VoteData::DA(Commitment { bytes: c.bytes.clone() }),
        Checked::Unchecked(token),
    ));
}

#[test]
fn forged_signature_is_rejected() {
    let committee = committee(4);
    let exchange = QuorumExchange::create(
        entries(4),
        keys(4),
        StaticCommittee::default_election_config(4),
        PublicKey { id: 0 },
        StakeTableEntry { key_id: 0, stake: 1 },
        PrivateKey { id: 0 },
    );
    let c = Commitment { bytes: vec![8] };
    let token = committee.make_vote_token(1, &PrivateKey { id: 0 }).unwrap().unwrap();
    let key = PublicKey { id: 0 }.to_bytes();
    // A signature over the wrong bytes does not validate.
    let wrong = sign(&PrivateKey { id: 0 }, &vec![1, 2, 3]);
    assert!(!exchange.is_valid_vote(
        &key,
        &wrong,
        &VoteData::Yes(c),
        Checked::Unchecked(token),
    ));
}

#[test]
fn committee_well_formedness_is_decidable_at_run_time() {
    assert!(committee(4).check_wf());
    // A duplicated table key is detected.
    let mut entries = entries(4);
    entries[3].key_id = 0;
    let config = StaticCommittee::default_election_config(4);
    assert!(!StaticCommittee::create_election(entries, keys(4), config).check_wf());
    // A zero-stake row is detected.
    let weightless = vec![StakeTableEntry { key_id: 0, stake: 0 }];
    let one_key = vec![PublicKey { id: 0 }];
    assert!(!StaticCommittee::create_election(weightless, one_key, config).check_wf());
    // Misaligned keys are detected.
    let misaligned = vec![
        PublicKey { id: 9 },
        PublicKey { id: 1 },
        PublicKey { id: 2 },
        PublicKey { id: 3 },
    ];
    let aligned_entries = (0..4).map(|i| StakeTableEntry { key_id: i, stake: 1 }).collect();
    assert!(!StaticCommittee::create_election(aligned_entries, misaligned, config).check_wf());
}
