//! The replicated-log data: transactions, blocks, the application state,
//! and leaves that chain blocks to the log.
//!
//! The application itself is a collaborator; the model here is a minimal
//! content-addressed one — a transaction is its payload, a block a list
//! of distinct transactions, the state a height and the commitment of the
//! last appended block — with the commit rules the kernel needs.

use vstd::prelude::*;

use crate::certificate::QuorumCertificate;
use crate::commitment::Commitment;
use crate::signature::EncodedPublicKey;
use crate::wire::{bytes_eq, copy_bytes, push_bytes, push_u64_be, spec_u64_to_be_bytes};
use crate::Either;

verus! {

/// The bytes of the model tag `TXN`.
pub open spec fn spec_tag_transaction() -> Seq<u8> {
    seq![84u8, 88, 78]
}

/// The bytes of the model tag `BLOCK`.
pub open spec fn spec_tag_block() -> Seq<u8> {
    seq![66u8, 76, 79, 67, 75]
}

/// The bytes of the model tag `STATE`.
pub open spec fn spec_tag_state() -> Seq<u8> {
    seq![83u8, 84, 65, 84, 69]
}

/// The bytes of the model tag `LEAF`.
pub open spec fn spec_tag_leaf() -> Seq<u8> {
    seq![76u8, 69, 65, 70]
}

/// An opaque payload with a stable content-addressed commitment.
#[derive(Debug)]
pub struct Transaction {
    pub payload: Vec<u8>,
}

impl View for Transaction {
    type V = Seq<u8>;

    open spec fn view(&self) -> Seq<u8> {
        self.payload@
    }
}

impl Clone for Transaction {
    fn clone(&self) -> (r: Self)
        ensures
            r@ == self@,
    {
        Transaction { payload: copy_bytes(&self.payload) }
    }
}

/// The commitment of a transaction: the tag, the payload length, the
/// payload.
pub open spec fn spec_transaction_commit(payload: Seq<u8>) -> Seq<u8> {
    spec_tag_transaction() + spec_u64_to_be_bytes(payload.len() as u64) + payload
}

impl Transaction {
    /// The content commitment of this transaction.
    pub fn commit(&self) -> (r: Commitment)
        ensures
            r@ == spec_transaction_commit(self@),
    {
        let mut bytes: Vec<u8> = vec![84u8, 88, 78];
        assert(bytes@ =~= spec_tag_transaction());
        push_u64_be(&mut bytes, self.payload.len() as u64);
        push_bytes(&mut bytes, &self.payload);
        assert(bytes@ =~= spec_transaction_commit(self@));
        Commitment { bytes }
    }
}

/// Errors from building a block.
#[derive(Clone, Copy, Debug, PartialEq, Eq, Structural)]
pub enum BlockError {
    /// The transaction is already contained in the block.
    DuplicateTransaction,
}

/// Errors from the state transition.
#[derive(Clone, Copy, Debug, PartialEq, Eq, Structural)]
pub enum StateError {
    /// The block does not validate against the state.
    InvalidBlock,
    /// The chain height cannot grow any further.
    HeightOverflow,
}

/// A list of distinct transactions proposed as one unit.
#[derive(Debug)]
pub struct Block {
    pub transactions: Vec<Transaction>,
}

impl View for Block {
    type V = Seq<Seq<u8>>;

    open spec fn view(&self) -> Seq<Seq<u8>> {
        self.transactions@.map_values(|t: Transaction| t@)
    }
}

impl Clone for Block {
    fn clone(&self) -> (r: Self)
        ensures
            r@ == self@,
    {
        let mut transactions: Vec<Transaction> = Vec::new();
        let mut i: usize = 0;
        while i < self.transactions.len()
            invariant
                i <= self.transactions@.len(),
                transactions@.len() == i,
                forall|j: int|
                    0 <= j < i ==> (#[trigger] transactions@[j])@ == self.transactions@[j]@,
            decreases self.transactions@.len() - i,
        {
            transactions.push(self.transactions[i].clone());
            i = i + 1;
        }
        let r = Block { transactions };
        assert(r@ =~= self@);
        r
    }
}

/// Whether a block's payloads contain `payload`.
pub open spec fn spec_block_contains(block: Seq<Seq<u8>>, payload: Seq<u8>) -> bool {
    exists|i: int| 0 <= i < block.len() && block[i] == payload
}

/// Whether a block's payloads are pairwise distinct.
pub open spec fn spec_block_distinct(block: Seq<Seq<u8>>) -> bool {
    forall|i: int, j: int| 0 <= i < j < block.len() ==> block[i] != block[j]
}

/// The transaction commitments of a block, in order.
pub open spec fn spec_block_tx_commits(block: Seq<Seq<u8>>) -> Seq<Seq<u8>> {
    block.map_values(|p: Seq<u8>| spec_transaction_commit(p))
}

/// The body of a block commitment: each transaction commitment in order,
/// length-prefixed.
pub open spec fn spec_block_body(block: Seq<Seq<u8>>) -> Seq<u8>
    decreases block.len(),
{
    if block.len() == 0 {
        Seq::<u8>::empty()
    } else {
        spec_block_body(block.drop_last()) + spec_u64_to_be_bytes(
            spec_transaction_commit(block.last()).len() as u64,
        ) + spec_transaction_commit(block.last())
    }
}

/// The commitment of a block: the tag, the transaction count, then each
/// transaction commitment length-prefixed.
pub open spec fn spec_block_commit(block: Seq<Seq<u8>>) -> Seq<u8> {
    spec_tag_block() + spec_u64_to_be_bytes(block.len() as u64) + spec_block_body(block)
}

impl Block {
    /// An empty block.
    pub fn new() -> (r: Block)
        ensures
            r@ == Seq::<Seq<u8>>::empty(),
    {
        let r = Block { transactions: Vec::new() };
        assert(r@ =~= Seq::<Seq<u8>>::empty());
        r
    }

    /// Whether this block contains a transaction with `payload`.
    pub fn contains_payload(&self, payload: &Vec<u8>) -> (r: bool)
        ensures
            r == spec_block_contains(self@, payload@),
    {
        let mut i: usize = 0;
        while i < self.transactions.len()
            invariant
                i <= self.transactions@.len(),
                forall|j: int| 0 <= j < i ==> (#[trigger] self@[j]) != payload@,
            decreases self.transactions@.len() - i,
        {
            assert(self@[i as int] == self.transactions@[i as int]@);
            if bytes_eq(&self.transactions[i].payload, payload) {
                return true;
            }
            i = i + 1;
        }
        false
    }

    /// Add a transaction, refusing one the block already contains.
    pub fn add_transaction_raw(&self, tx: &Transaction) -> (r: Result<Block, BlockError>)
        ensures
            match r {
                Ok(b) => !spec_block_contains(self@, tx@) && b@ == self@.push(tx@),
                Err(e) => spec_block_contains(self@, tx@) && e == BlockError::DuplicateTransaction,
            },
    {
        if self.contains_payload(&tx.payload) {
            Err(BlockError::DuplicateTransaction)
        } else {
            let mut b = self.clone();
            b.transactions.push(tx.clone());
            assert(b@ =~= self@.push(tx@));
            Ok(b)
        }
    }

    /// The commitments of the contained transactions, in order.
    pub fn contained_transactions(&self) -> (r: Vec<Commitment>)
        ensures
            r@.map_values(|c: Commitment| c@) == spec_block_tx_commits(self@),
    {
        let mut out: Vec<Commitment> = Vec::new();
        let mut i: usize = 0;
        while i < self.transactions.len()
            invariant
                i <= self.transactions@.len(),
                out@.len() == i,
                forall|j: int|
                    0 <= j < i ==> (#[trigger] out@[j])@ == spec_transaction_commit(
                        self.transactions@[j]@,
                    ),
            decreases self.transactions@.len() - i,
        {
            out.push(self.transactions[i].commit());
            i = i + 1;
        }
        assert forall|j: int| 0 <= j < out@.len() implies out@.map_values(|c: Commitment| c@)[j]
            == spec_block_tx_commits(self@)[j] by {
            assert(self@[j] == self.transactions@[j]@);
        }
        assert(out@.map_values(|c: Commitment| c@) =~= spec_block_tx_commits(self@));
        out
    }

    /// Whether the contained payloads are pairwise distinct.
    pub fn is_distinct(&self) -> (r: bool)
        ensures
            r == spec_block_distinct(self@),
    {
        let mut i: usize = 0;
        while i < self.transactions.len()
            invariant
                i <= self.transactions@.len(),
                forall|a: int, b: int| 0 <= a < b < i ==> (#[trigger] self@[a]) != (
                #[trigger] self@[b]),
            decreases self.transactions@.len() - i,
        {
            let mut j: usize = 0;
            while j < i
                invariant
                    j <= i < self.transactions@.len(),
                    forall|a: int, b: int| 0 <= a < b < i ==> (#[trigger] self@[a]) != (
                    #[trigger] self@[b]),
                    forall|a: int| 0 <= a < j ==> (#[trigger] self@[a]) != self@[i as int],
                decreases i - j,
            {
                assert(self@[j as int] == self.transactions@[j as int]@);
                assert(self@[i as int] == self.transactions@[i as int]@);
                if bytes_eq(&self.transactions[j].payload, &self.transactions[i].payload) {
                    return false;
                }
                j = j + 1;
            }
            i = i + 1;
        }
        true
    }

    /// The content commitment of this block.
    pub fn commit(&self) -> (r: Commitment)
        ensures
            r@ == spec_block_commit(self@),
    {
        let mut bytes: Vec<u8> = vec![66u8, 76, 79, 67, 75];
        assert(bytes@ =~= spec_tag_block());
        push_u64_be(&mut bytes, self.transactions.len() as u64);
        let ghost base = bytes@;
        let mut i: usize = 0;
        while i < self.transactions.len()
            invariant
                i <= self.transactions@.len(),
                bytes@ == base + spec_block_body(self@.take(i as int)),
            decreases self.transactions@.len() - i,
        {
            let c = self.transactions[i].commit();
            push_u64_be(&mut bytes, c.bytes.len() as u64);
            push_bytes(&mut bytes, &c.bytes);
            i = i + 1;
            proof {
                let taken = self@.take(i as int);
                assert(taken.drop_last() =~= self@.take(i - 1));
                assert(taken.last() == self@[i - 1]);
                assert(self@[i - 1] == self.transactions@[i - 1]@);
                assert(bytes@ =~= base + spec_block_body(taken));
            }
        }
        assert(self@.take(self.transactions@.len() as int) =~= self@);
        assert(bytes@ =~= spec_block_commit(self@));
        Commitment { bytes }
    }
}

/// The replicated application state: a chain height and the commitment
/// of the last appended block.
#[derive(Debug)]
pub struct State {
    pub height: u64,
    pub last_block_commitment: Commitment,
}

/// The mathematical value of a [`State`].
pub struct StateView {
    pub height: u64,
    pub last_block_commitment: Seq<u8>,
}

impl View for State {
    type V = StateView;

    open spec fn view(&self) -> StateView {
        StateView { height: self.height, last_block_commitment: self.last_block_commitment@ }
    }
}

impl Clone for State {
    fn clone(&self) -> (r: Self)
        ensures
            r@ == self@,
    {
        State { height: self.height, last_block_commitment: self.last_block_commitment.clone() }
    }
}

/// The commitment of a state: the tag, the height, the last block's
/// commitment.
pub open spec fn spec_state_commit(s: StateView) -> Seq<u8> {
    spec_tag_state() + spec_u64_to_be_bytes(s.height) + spec_u64_to_be_bytes(
        s.last_block_commitment.len() as u64,
    ) + s.last_block_commitment
}

impl State {
    /// The state the chain starts from.
    pub fn genesis() -> (r: State)
        ensures
            r@.height == 0,
            r@.last_block_commitment == crate::commitment::spec_fake_commitment(),
    {
        State { height: 0, last_block_commitment: crate::commitment::fake_commitment() }
    }

    /// An empty block to build on this state.
    pub fn next_block(&self) -> (r: Block)
        ensures
            r@ == Seq::<Seq<u8>>::empty(),
    {
        Block::new()
    }

    /// Whether `block` may be appended to this state: its transactions
    /// must be pairwise distinct.
    pub fn validate_block(&self, block: &Block, _view_number: u64) -> (r: bool)
        ensures
            r == spec_block_distinct(block@),
    {
        block.is_distinct()
    }

    /// Append a block, advancing the height and recording the block's
    /// commitment; refused for a block with duplicate transactions, or
    /// when the height cannot grow.
    pub fn append(&self, block: &Block, view_number: u64) -> (r: Result<State, StateError>)
        ensures
            match r {
                Ok(s) => {
                    &&& spec_block_distinct(block@)
                    &&& self@.height < u64::MAX
                    &&& s@.height == self@.height + 1
                    &&& s@.last_block_commitment == spec_block_commit(block@)
                },
                Err(StateError::InvalidBlock) => !spec_block_distinct(block@),
                Err(StateError::HeightOverflow) => spec_block_distinct(block@) && self@.height
                    == u64::MAX,
            },
    {
        if !self.validate_block(block, view_number) {
            Err(StateError::InvalidBlock)
        } else if self.height == u64::MAX {
            Err(StateError::HeightOverflow)
        } else {
            Ok(State { height: self.height + 1, last_block_commitment: block.commit() })
        }
    }

    /// The content commitment of this state.
    pub fn commit(&self) -> (r: Commitment)
        ensures
            r@ == spec_state_commit(self@),
    {
        let mut bytes: Vec<u8> = vec![83u8, 84, 65, 84, 69];
        assert(bytes@ =~= spec_tag_state());
        push_u64_be(&mut bytes, self.height);
        push_u64_be(&mut bytes, self.last_block_commitment.bytes.len() as u64);
        push_bytes(&mut bytes, &self.last_block_commitment.bytes);
        assert(bytes@ =~= spec_state_commit(self@));
        Commitment { bytes }
    }
}

/// A node of the replicated log: a block chained to its parent by
/// commitment, justified by a quorum certificate, carrying either the
/// materialised state or only its commitment.
pub struct Leaf {
    /// The view this leaf was proposed in.
    pub view_number: u64,
    /// The parent's height plus one.
    pub height: u64,
    /// The certificate justifying the parent leaf.
    pub justify_qc: QuorumCertificate,
    /// The commitment of the parent leaf.
    pub parent_commitment: Commitment,
    /// The block this leaf appends.
    pub deltas: Block,
    /// The state after appending, or only its commitment for pruned
    /// history.
    pub state: Either<State, Commitment>,
    /// Transactions dropped while building the block.
    pub rejected: Vec<Transaction>,
    /// When this leaf was proposed.
    pub timestamp: u64,
    /// The proposer's encoded key.
    pub proposer_id: EncodedPublicKey,
}

/// The mathematical value of a leaf's state field.
pub enum LeafStateView {
    /// The materialised state.
    Full(StateView),
    /// Only the state's commitment.
    Sealed(Seq<u8>),
}

/// The mathematical value of a [`Leaf`].
pub struct LeafView {
    pub view_number: u64,
    pub height: u64,
    pub justify_qc: crate::certificate::QuorumCertificateView,
    pub parent_commitment: Seq<u8>,
    pub deltas: Seq<Seq<u8>>,
    pub state: LeafStateView,
    pub rejected: Seq<Seq<u8>>,
    pub timestamp: u64,
    pub proposer_id: Seq<u8>,
}

impl View for Leaf {
    type V = LeafView;

    open spec fn view(&self) -> LeafView {
        LeafView {
            view_number: self.view_number,
            height: self.height,
            justify_qc: self.justify_qc@,
            parent_commitment: self.parent_commitment@,
            deltas: self.deltas@,
            state: match self.state {
                Either::Left(s) => LeafStateView::Full(s@),
                Either::Right(c) => LeafStateView::Sealed(c@),
            },
            rejected: self.rejected@.map_values(|t: Transaction| t@),
            timestamp: self.timestamp,
            proposer_id: self.proposer_id@,
        }
    }
}

impl Clone for Leaf {
    fn clone(&self) -> (r: Self)
        ensures
            r@ == self@,
    {
        let state = match &self.state {
            Either::Left(s) => Either::Left(s.clone()),
            Either::Right(c) => Either::Right(c.clone()),
        };
        let mut rejected: Vec<Transaction> = Vec::new();
        let mut i: usize = 0;
        while i < self.rejected.len()
            invariant
                i <= self.rejected@.len(),
                rejected@.len() == i,
                forall|j: int| 0 <= j < i ==> (#[trigger] rejected@[j])@ == self.rejected@[j]@,
            decreases self.rejected@.len() - i,
        {
            rejected.push(self.rejected[i].clone());
            i = i + 1;
        }
        let r = Leaf {
            view_number: self.view_number,
            height: self.height,
            justify_qc: self.justify_qc.clone(),
            parent_commitment: self.parent_commitment.clone(),
            deltas: self.deltas.clone(),
            state,
            rejected,
            timestamp: self.timestamp,
            proposer_id: self.proposer_id.clone(),
        };
        assert(r@.rejected =~= self@.rejected);
        assert(r@ == self@);
        r
    }
}

/// The commitment bytes of a leaf's state field: the state's commitment,
/// materialised or sealed.
pub open spec fn spec_leaf_state_commit(s: LeafStateView) -> Seq<u8> {
    match s {
        LeafStateView::Full(state) => spec_state_commit(state),
        LeafStateView::Sealed(c) => c,
    }
}

/// The commitment of a leaf: the tag, view, height, then the parent
/// commitment, block commitment, state commitment and proposer, each
/// length-prefixed, and the timestamp.
pub open spec fn spec_leaf_commit(l: LeafView) -> Seq<u8> {
    spec_tag_leaf() + spec_u64_to_be_bytes(l.view_number) + spec_u64_to_be_bytes(l.height)
        + spec_u64_to_be_bytes(l.parent_commitment.len() as u64) + l.parent_commitment
        + spec_u64_to_be_bytes(spec_block_commit(l.deltas).len() as u64) + spec_block_commit(
        l.deltas,
    ) + spec_u64_to_be_bytes(spec_leaf_state_commit(l.state).len() as u64) + spec_leaf_state_commit(
        l.state,
    ) + spec_u64_to_be_bytes(l.proposer_id.len() as u64) + l.proposer_id + spec_u64_to_be_bytes(
        l.timestamp,
    )
}

/// Every non-genesis leaf is justified by the certificate of its own
/// parent: the justifying certificate names exactly the parent
/// commitment.
pub open spec fn spec_leaf_wf(l: LeafView) -> bool {
    !l.justify_qc.is_genesis ==> l.justify_qc.leaf_commitment == l.parent_commitment
}

impl Leaf {
    /// Decide at run time whether this leaf is justified by its own
    /// parent's certificate.
    pub fn is_well_formed(&self) -> (r: bool)
        ensures
            r == spec_leaf_wf(self@),
    {
        if self.justify_qc.is_genesis {
            true
        } else {
            crate::wire::bytes_eq(
                &self.justify_qc.leaf_commitment.bytes,
                &self.parent_commitment.bytes,
            )
        }
    }

    /// The content commitment of this leaf.
    pub fn commit(&self) -> (r: Commitment)
        ensures
            r@ == spec_leaf_commit(self@),
    {
        let mut bytes: Vec<u8> = vec![76u8, 69, 65, 70];
        assert(bytes@ =~= spec_tag_leaf());
        push_u64_be(&mut bytes, self.view_number);
        push_u64_be(&mut bytes, self.height);
        push_u64_be(&mut bytes, self.parent_commitment.bytes.len() as u64);
        push_bytes(&mut bytes, &self.parent_commitment.bytes);
        let block_commit = self.deltas.commit();
        push_u64_be(&mut bytes, block_commit.bytes.len() as u64);
        push_bytes(&mut bytes, &block_commit.bytes);
        let state_commit = match &self.state {
            Either::Left(s) => s.commit(),
            Either::Right(c) => c.clone(),
        };
        push_u64_be(&mut bytes, state_commit.bytes.len() as u64);
        push_bytes(&mut bytes, &state_commit.bytes);
        push_u64_be(&mut bytes, self.proposer_id.bytes.len() as u64);
        push_bytes(&mut bytes, &self.proposer_id.bytes);
        push_u64_be(&mut bytes, self.timestamp);
        assert(bytes@ =~= spec_leaf_commit(self@));
        Commitment { bytes }
    }
}

} // verus!
