//! The signature model: key encoding, signing and checking, and
//! stake-weighted aggregate verification.

use sequencing_core::signature::{
    check_aggregate, sign, stake_of, AggregateSignature, PrivateKey, PublicKey, SignaturePair,
    StakeTableEntry,
};

fn table() -> Vec<StakeTableEntry> {
    vec![
        StakeTableEntry { key_id: 0, stake: 1 },
        StakeTableEntry { key_id: 1, stake: 2 },
        StakeTableEntry { key_id: 2, stake: 3 },
    ]
}

fn pair(id: u64, message: &Vec<u8>) -> SignaturePair {
    SignaturePair {
        key: PublicKey { id }.to_bytes(),
        signature: sign(&PrivateKey { id }, message),
    }
}

#[test]
fn key_encoding_round_trips() {
    let key = PublicKey { id: 0xDEADBEEF };
    let encoded = key.to_bytes();
    assert_eq!(encoded.bytes.len(), 8);
    let decoded = PublicKey::from_bytes(&encoded).expect("eight bytes decode");
    assert_eq!(decoded.id, 0xDEADBEEF);
    // A short encoding does not decode.
    let short = sequencing_core::signature::EncodedPublicKey { bytes: vec![1, 2, 3] };
    assert!(PublicKey::from_bytes(&short).is_none());
}

#[test]
fn signatures_check_only_for_their_message_and_key() {
    let message = vec![1, 2, 3];
    let signature = sign(&PrivateKey { id: 5 }, &message);
    assert!(PublicKey { id: 5 }.validate(&signature, &message));
    assert!(!PublicKey { id: 6 }.validate(&signature, &message));
    assert!(!PublicKey { id: 5 }.validate(&signature, &vec![1, 2, 4]));
}

#[test]
fn stake_lookup_sums_the_table() {
    let table = table();
    assert_eq!(stake_of(&table, 1), 2);
    assert_eq!(stake_of(&table, 9), 0);
}

#[test]
fn aggregate_verifies_exactly_at_the_signers_stake() {
    // Signers 1 and 2 hold stake 5 of 6 total.
    let table = table();
    let message = vec![9, 9];
    let aggregate = AggregateSignature { entries: vec![pair(1, &message), pair(2, &message)] };
    assert!(check_aggregate(&table, 5, &message, &aggregate));
    assert!(!check_aggregate(&table, 6, &message, &aggregate));
}

#[test]
fn aggregate_with_a_bad_signature_is_rejected() {
    let table = table();
    let message = vec![9, 9];
    let other = vec![8];
    let aggregate = AggregateSignature { entries: vec![pair(1, &message), pair(2, &other)] };
    assert!(!check_aggregate(&table, 1, &message, &aggregate));
}

#[test]
fn duplicate_signers_are_counted_once() {
    let table = table();
    let message = vec![3];
    let aggregate = AggregateSignature {
        entries: vec![pair(2, &message), pair(2, &message), pair(2, &message)],
    };
    // Key 2 holds stake 3; repeating it does not multiply the weight.
    assert!(check_aggregate(&table, 3, &message, &aggregate));
    assert!(!check_aggregate(&table, 4, &message, &aggregate));
}

#[test]
fn unknown_signers_hold_no_stake() {
    let table = table();
    let message = vec![3];
    let aggregate = AggregateSignature { entries: vec![pair(7, &message)] };
    assert!(!check_aggregate(&table, 1, &message, &aggregate));
}
