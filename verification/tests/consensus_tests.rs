//! The consensus state: the append-only view map, the leaf store, and
//! the mempool.

use sequencing_core::certificate::QuorumCertificate;
use sequencing_core::commitment::{fake_commitment, Commitment};
use sequencing_core::consensus::{Consensus, ViewInner};
use sequencing_core::data::{Block, Leaf, State, Transaction};
use sequencing_core::Either;

fn sealed_leaf(view: u64) -> sequencing_core::data::Leaf {
    sequencing_core::data::Leaf {
        view_number: view,
        height: 1,
        justify_qc: QuorumCertificate::genesis(),
        parent_commitment: fake_commitment(),
        deltas: Block::new(),
        state: Either::Right(Commitment { bytes: vec![view as u8] }),
        rejected: Vec::new(),
        timestamp: 0,
        proposer_id: sequencing_core::signature::PublicKey { id: 0 }.to_bytes(),
    }
}

#[test]
fn view_outcome_is_set_once_and_never_rewritten() {
    // At most one of Leaf or Failed ever holds per view; once set, the
    // entry is immutable.
    let mut consensus = Consensus::genesis();
    assert!(consensus.insert_view(1, ViewInner::Failed));
    // A second outcome for view 1 changes nothing.
    assert!(!consensus.insert_view(1, ViewInner::Leaf { leaf: Commitment { bytes: vec![1] } }));
    match consensus.view_inner(1) {
        Some(ViewInner::Failed) => {}
        _ => panic!("the first outcome stands"),
    }
    // And the settled genesis view cannot be overwritten either.
    assert!(!consensus.insert_view(0, ViewInner::Failed));
    match consensus.view_inner(0) {
        Some(ViewInner::Leaf { .. }) => {}
        _ => panic!("the genesis view keeps its leaf"),
    }
}

#[test]
fn view_map_keeps_other_views_untouched() {
    let mut consensus = Consensus::genesis();
    assert!(consensus.insert_view(3, ViewInner::Failed));
    assert!(consensus.insert_view(2, ViewInner::Leaf { leaf: Commitment { bytes: vec![2] } }));
    assert!(consensus.view_inner(4).is_none());
    match consensus.view_inner(2) {
        Some(ViewInner::Leaf { leaf }) => assert_eq!(leaf.bytes, vec![2]),
        _ => panic!("view 2 settled to its leaf"),
    }
    match consensus.view_inner(3) {
        Some(ViewInner::Failed) => {}
        _ => panic!("view 3 settled to failure"),
    }
}

#[test]
fn save_leaf_stores_by_commitment_and_deduplicates() {
    let mut consensus = Consensus::genesis();
    let leaf = sealed_leaf(5);
    let commitment = leaf.commit();
    assert!(consensus.save_leaf(leaf));
    // The same leaf again changes nothing.
    assert!(!consensus.save_leaf(sealed_leaf(5)));
    assert_eq!(consensus.saved_leaves.len(), 2);
    let found = consensus.get_leaf(&commitment).expect("the saved leaf resolves");
    assert_eq!(found.view_number, 5);
    assert!(consensus.get_leaf(&Commitment { bytes: vec![0xFF] }).is_none());
}

#[test]
fn mempool_deduplicates_by_payload() {
    let mut consensus = Consensus::genesis();
    assert!(consensus.add_transaction(Transaction { payload: vec![1, 2] }));
    assert!(!consensus.add_transaction(Transaction { payload: vec![1, 2] }));
    assert!(consensus.add_transaction(Transaction { payload: vec![3] }));
    let cloned = consensus.cloned_transactions();
    assert_eq!(cloned.len(), 2);
    assert_eq!(cloned[0].payload, vec![1, 2]);
}

#[test]
fn block_refuses_duplicate_transactions() {
    let block = Block::new();
    let t = Transaction { payload: vec![7] };
    let block = block.add_transaction_raw(&t).expect("a fresh transaction is added");
    match block.add_transaction_raw(&t) {
        Err(sequencing_core::data::BlockError::DuplicateTransaction) => {}
        _ => panic!("a duplicate transaction is refused"),
    }
    assert_eq!(block.contained_transactions().len(), 1);
}

#[test]
fn state_append_advances_height_and_rejects_bad_blocks() {
    let state = State::genesis();
    let block = Block::new()
        .add_transaction_raw(&Transaction { payload: vec![1] })
        .unwrap();
    let next = state.append(&block, 1).expect("a distinct block appends");
    assert_eq!(next.height, 1);
    assert_eq!(next.last_block_commitment.bytes, block.commit().bytes);
    // A hand-built block with duplicate payloads does not validate.
    let bad = Block {
        transactions: vec![
            Transaction { payload: vec![5] },
            Transaction { payload: vec![5] },
        ],
    };
    assert!(!state.validate_block(&bad, 1));
    match state.append(&bad, 1) {
        Err(sequencing_core::data::StateError::InvalidBlock) => {}
        _ => panic!("a block with duplicates is refused"),
    }
    // A chain at the maximum height cannot grow.
    let ceiling = State { height: u64::MAX, last_block_commitment: fake_commitment() };
    match ceiling.append(&block, 1) {
        Err(sequencing_core::data::StateError::HeightOverflow) => {}
        _ => panic!("the height cannot grow past the maximum"),
    }
}

#[test]
fn genesis_state_is_settled_and_justified() {
    let consensus = Consensus::genesis();
    assert!(consensus.high_qc.is_genesis);
    assert_eq!(consensus.high_qc.view_number, 0);
    assert_eq!(consensus.saved_leaves.len(), 1);
    assert_eq!(consensus.transactions.len(), 0);
    match consensus.view_inner(0) {
        Some(ViewInner::Leaf { leaf }) => {
            assert_eq!(leaf.bytes, consensus.saved_leaves[0].commit().bytes);
        }
        _ => panic!("the genesis view holds the genesis leaf"),
    }
}

#[test]
fn consensus_well_formedness_is_decidable_at_run_time() {
    let mut consensus = Consensus::genesis();
    consensus.insert_view(3, ViewInner::Failed);
    consensus.add_transaction(Transaction { payload: vec![1] });
    assert!(consensus.check_wf());
    // An out-of-order view map is detected.
    let mut broken = Consensus::genesis();
    broken.state_map.push((0, ViewInner::Failed));
    assert!(!broken.check_wf());
    // A duplicated pending payload is detected.
    let mut dup = Consensus::genesis();
    dup.transactions.push(Transaction { payload: vec![9] });
    dup.transactions.push(Transaction { payload: vec![9] });
    assert!(!dup.check_wf());
    // An unjustified saved leaf is detected.
    let mut bad_leaf = Consensus::genesis();
    bad_leaf.saved_leaves.push(Leaf {
        view_number: 1,
        height: 1,
        justify_qc: QuorumCertificate {
            leaf_commitment: Commitment { bytes: vec![1] },
            view_number: 0,
            signatures: sequencing_core::certificate::AssembledSignature::Genesis(),
            is_genesis: false,
        },
        parent_commitment: Commitment { bytes: vec![2] },
        deltas: Block::new(),
        state: Either::Right(Commitment { bytes: vec![3] }),
        rejected: Vec::new(),
        timestamp: 0,
        proposer_id: sequencing_core::signature::PublicKey { id: 0 }.to_bytes(),
    });
    assert!(!bad_leaf.check_wf());
}

#[test]
fn leaf_well_formedness_is_decidable_at_run_time() {
    let genesis = Consensus::genesis();
    assert!(genesis.saved_leaves[0].is_well_formed());
    let orphan = Leaf {
        view_number: 1,
        height: 1,
        justify_qc: QuorumCertificate {
            leaf_commitment: Commitment { bytes: vec![1] },
            view_number: 0,
            signatures: sequencing_core::certificate::AssembledSignature::Genesis(),
            is_genesis: false,
        },
        parent_commitment: Commitment { bytes: vec![2] },
        deltas: Block::new(),
        state: Either::Right(Commitment { bytes: vec![3] }),
        rejected: Vec::new(),
        timestamp: 0,
        proposer_id: sequencing_core::signature::PublicKey { id: 0 }.to_bytes(),
    };
    assert!(!orphan.is_well_formed());
}
